//! Decimal amounts of credits. The arithmetic is that of `rust_decimal`: an
//! amount holds the mantissa and the scale of one of its decimals.
use rust_decimal::Decimal;
use vstd::prelude::*;
use vstd::std_specs::convert::FromSpecImpl;

verus! {

/// The largest mantissa of a decimal: 96 bits.
pub const MAX_MANTISSA: i128 = 0xFFFF_FFFF_FFFF_FFFF_FFFF_FFFF;

/// The largest scale of a decimal.
pub const MAX_SCALE: u32 = 28;

/// The decimal number `mantissa / 10^scale`.
#[derive(Debug, Clone, Copy, PartialEq, Eq)]
pub struct Amount {
    mantissa: i128,
    scale: u32,
}

/// Whether a decimal can have this mantissa and this scale.
pub open spec fn is_representable(mantissa: int, scale: nat) -> bool {
    -MAX_MANTISSA <= mantissa <= MAX_MANTISSA && scale <= MAX_SCALE
}

impl View for Amount {
    type V = (int, nat);

    closed spec fn view(&self) -> (int, nat) {
        (self.mantissa as int, self.scale as nat)
    }
}

/// What `Decimal::from_str_exact` makes of `text`: the mantissa and the scale
/// of the decimal, or `None` where it reports an error.
pub uninterp spec fn decimal_from_text(text: Seq<char>) -> Option<(int, nat)>;

/// What `Decimal::checked_div` returns for two decimals, each given by
/// mantissa and scale: the quotient, rounded where it has too many digits, or
/// `None` where it cannot be had.
pub uninterp spec fn decimal_quotient(
    dividend: int,
    dividend_scale: nat,
    divisor: int,
    divisor_scale: nat,
) -> Option<(int, nat)>;

/// What `Decimal::checked_mul` returns for two decimals, each given by
/// mantissa and scale: the product, rounded where it has too many digits, or
/// `None` where it is too large.
pub uninterp spec fn decimal_product(
    left: int,
    left_scale: nat,
    right: int,
    right_scale: nat,
) -> Option<(int, nat)>;

/// How `Decimal` shows the decimal with this mantissa and this scale.
pub uninterp spec fn decimal_text(mantissa: int, scale: nat) -> Seq<char>;

/// The same number without trailing zeros behind the decimal point; zero
/// gets the scale 0.
pub open spec fn stripped(mantissa: int, scale: nat) -> (int, nat)
    decreases scale,
{
    if mantissa == 0 {
        (0, 0)
    } else if scale > 0 && mantissa % 10 == 0 {
        stripped(mantissa / 10, (scale - 1) as nat)
    } else {
        (mantissa, scale)
    }
}

/// The view of an amount that may be missing.
pub open spec fn optional_view(amount: Option<Amount>) -> Option<(int, nat)> {
    match amount {
        Some(amount) => Some(amount@),
        None => None,
    }
}

impl Amount {
    /// A decimal can hold the amount.
    #[verifier::type_invariant]
    spec fn representable(self) -> bool {
        is_representable(self.mantissa as int, self.scale as nat)
    }

    /// The amount `mantissa / 10^scale`, if a decimal can hold it.
    pub fn new(mantissa: i128, scale: u32) -> (amount: Option<Amount>)
        ensures
            amount is Some <==> is_representable(mantissa as int, scale as nat),
            amount is Some ==> amount.unwrap()@ == (mantissa as int, scale as nat),
    {
        if -MAX_MANTISSA <= mantissa && mantissa <= MAX_MANTISSA && scale <= MAX_SCALE {
            Some(Amount { mantissa, scale })
        } else {
            None
        }
    }

    /// The mantissa of the amount.
    pub fn mantissa(&self) -> (mantissa: i128)
        ensures
            mantissa == self@.0,
            is_representable(self@.0, self@.1),
    {
        proof {
            use_type_invariant(self);
        }
        self.mantissa
    }

    /// The scale of the amount.
    pub fn scale(&self) -> (scale: u32)
        ensures
            scale == self@.1,
            is_representable(self@.0, self@.1),
    {
        proof {
            use_type_invariant(self);
        }
        self.scale
    }

    /// `Decimal::from_str_exact`: the decimal that `text` spells, or `None`
    /// where the call reports an error.
    #[verifier::external_body]
    pub(crate) fn parse(text: &str) -> (amount: Option<Amount>)
        ensures
            optional_view(amount) == decimal_from_text(text@),
    {
        match Decimal::from_str_exact(text) {
            Ok(decimal) => Some(Amount { mantissa: decimal.mantissa(), scale: decimal.scale() }),
            Err(_) => None,
        }
    }

    /// `self / divisor`, if a decimal can hold it.
    pub(crate) fn divided_by(self, divisor: Amount) -> (quotient: Option<Amount>)
        ensures
            optional_view(quotient) == decimal_quotient(self@.0, self@.1, divisor@.0, divisor@.1),
    {
        proof {
            use_type_invariant(self);
            use_type_invariant(divisor);
        }
        call_checked_div(self, divisor)
    }

    /// `self * factor`, if a decimal can hold it.
    pub(crate) fn times(self, factor: Amount) -> (product: Option<Amount>)
        ensures
            optional_view(product) == decimal_product(self@.0, self@.1, factor@.0, factor@.1),
    {
        proof {
            use_type_invariant(self);
            use_type_invariant(factor);
        }
        call_checked_mul(self, factor)
    }

    /// The same number without trailing zeros behind the decimal point.
    pub(crate) fn normalized(self) -> (normal: Amount)
        ensures
            normal@ == stripped(self@.0, self@.1),
    {
        proof {
            use_type_invariant(self);
        }
        call_normalize(self)
    }

    /// The amount as a decimal shows it.
    pub(crate) fn shown(self) -> (text: String)
        ensures
            text@ == decimal_text(self@.0, self@.1),
    {
        proof {
            use_type_invariant(self);
        }
        call_to_string(self)
    }
}

/// `Decimal::checked_div`: `dividend / divisor`, or `None` where the call
/// gives none (the divisor is zero, or the quotient is too large). Both
/// amounts have to be representable, or making the decimals would panic.
#[verifier::external_body]
fn call_checked_div(dividend: Amount, divisor: Amount) -> (quotient: Option<Amount>)
    requires
        dividend.representable(),
        divisor.representable(),
    ensures
        optional_view(quotient) == decimal_quotient(
            dividend@.0,
            dividend@.1,
            divisor@.0,
            divisor@.1,
        ),
{
    let dividend = Decimal::from_i128_with_scale(dividend.mantissa, dividend.scale);
    let divisor = Decimal::from_i128_with_scale(divisor.mantissa, divisor.scale);
    match dividend.checked_div(divisor) {
        Some(decimal) => Some(Amount { mantissa: decimal.mantissa(), scale: decimal.scale() }),
        None => None,
    }
}

/// `Decimal::checked_mul`: `left * right`, or `None` where the product is
/// too large. Both amounts have to be representable, or making the decimals
/// would panic.
#[verifier::external_body]
fn call_checked_mul(left: Amount, right: Amount) -> (product: Option<Amount>)
    requires
        left.representable(),
        right.representable(),
    ensures
        optional_view(product) == decimal_product(left@.0, left@.1, right@.0, right@.1),
{
    let left = Decimal::from_i128_with_scale(left.mantissa, left.scale);
    let right = Decimal::from_i128_with_scale(right.mantissa, right.scale);
    match left.checked_mul(right) {
        Some(decimal) => Some(Amount { mantissa: decimal.mantissa(), scale: decimal.scale() }),
        None => None,
    }
}

/// `Decimal::normalize`: the same number without trailing zeros behind the
/// decimal point, zero with the scale 0.
#[verifier::external_body]
fn call_normalize(amount: Amount) -> (normal: Amount)
    requires
        amount.representable(),
    ensures
        normal@ == stripped(amount@.0, amount@.1),
{
    let decimal = Decimal::from_i128_with_scale(amount.mantissa, amount.scale).normalize();
    Amount { mantissa: decimal.mantissa(), scale: decimal.scale() }
}

/// `Decimal`'s `to_string`: the amount as `Decimal` shows it.
#[verifier::external_body]
fn call_to_string(amount: Amount) -> (text: String)
    requires
        amount.representable(),
    ensures
        text@ == decimal_text(amount@.0, amount@.1),
{
    Decimal::from_i128_with_scale(amount.mantissa, amount.scale).to_string()
}

impl FromSpecImpl<u32> for Amount {
    open spec fn obeys_from_spec() -> bool {
        true
    }

    closed spec fn from_spec(number: u32) -> Amount {
        Amount { mantissa: number as i128, scale: 0 }
    }
}

impl From<u32> for Amount {
    /// The whole number `number`, with the scale 0.
    fn from(number: u32) -> (amount: Amount)
        ensures
            amount@ == (number as int, 0nat),
    {
        Amount { mantissa: number as i128, scale: 0 }
    }
}

} // verus!
