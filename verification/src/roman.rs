//! A representation for standard Roman numerals. Digits go up to M.
use vstd::arithmetic::div_mod::lemma_fundamental_div_mod;
use vstd::prelude::*;
use vstd::std_specs::convert::FromSpecImpl;
use vstd::std_specs::convert::TryFromSpecImpl;

use crate::error::InvalidRomanNumeral;
use crate::roman::proofs::lemma_decimal_digits;
use crate::roman::proofs::lemma_place_chars;
use crate::roman::proofs::lemma_place_first;
use crate::roman::proofs::lemma_place_literal;
use crate::roman::proofs::lemma_read_concat;
use crate::roman::proofs::lemma_read_place;
use crate::roman::proofs::lemma_read_push;
use crate::roman::proofs::lemma_read_thousands;
use crate::roman::proofs::lemma_spelled_parts;
use crate::roman::proofs::place_at;
use crate::text::chars_of;

mod proofs;

verus! {

/// The value of a single Roman digit; any other character counts as 0.
pub open spec fn digit_value_spec(digit: char) -> nat {
    if digit == 'I' {
        1
    } else if digit == 'V' {
        5
    } else if digit == 'X' {
        10
    } else if digit == 'L' {
        50
    } else if digit == 'C' {
        100
    } else if digit == 'D' {
        500
    } else if digit == 'M' {
        1000
    } else {
        0
    }
}

/// `count` copies of `digit`.
pub open spec fn repeated(digit: char, count: nat) -> Seq<char> {
    Seq::new(count, |i: int| digit)
}

/// How one decimal digit `d` (0 to 9) is spelled with the symbols for one,
/// five and ten units of its decimal place: nine is `one ten`, four is
/// `one five`, anything else is an optional `five` followed by up to three
/// `one`s.
pub open spec fn place(d: nat, one: char, five: char, ten: char) -> Seq<char> {
    if d == 9 {
        seq![one, ten]
    } else if d == 4 {
        seq![one, five]
    } else if d >= 5 {
        seq![five] + repeated(one, (d - 5) as nat)
    } else {
        repeated(one, d)
    }
}

/// The string made of `m` times `M`, then the hundreds, the tens and the
/// units, each spelled by `place`.
pub open spec fn spelled(m: nat, h: nat, t: nat, u: nat) -> Seq<char> {
    repeated('M', m) + place(h, 'C', 'D', 'M') + place(t, 'X', 'L', 'C') + place(u, 'I', 'V', 'X')
}

/// The canonical grammar: at most three `M`, then one hundreds group, one
/// tens group and one units group. The empty string belongs to it.
pub open spec fn is_canonical(text: Seq<char>) -> bool {
    exists|m: nat, h: nat, t: nat, u: nat|
        m <= 3 && h <= 9 && t <= 9 && u <= 9 && text == #[trigger] spelled(m, h, t, u)
}

/// The canonical Roman numeral of `n`, for `n` below 4000 (empty for 0).
pub open spec fn numeral(n: nat) -> Seq<char> {
    spelled(n / 1000, (n / 100) % 10, (n / 10) % 10, n % 10)
}

/// Digits that are held back when read, since they may have to be subtracted
/// from the digit that follows.
pub open spec fn is_subtractive(digit: char) -> bool {
    digit == 'I' || digit == 'X' || digit == 'C'
}

/// What a pending digit is still worth.
pub open spec fn pending_value(pending: Option<char>) -> nat {
    match pending {
        Some(digit) => digit_value_spec(digit),
        None => 0,
    }
}

/// One step of the left-to-right reduction. The state is the sum so far and
/// the digit that is held back, if any.
pub open spec fn read_digit(state: (nat, Option<char>), current: char) -> (nat, Option<char>) {
    match state.1 {
        Some(last) => {
            if last == current {
                (state.0 + digit_value_spec(current) + digit_value_spec(last), None)
            } else if digit_value_spec(last) < digit_value_spec(current) {
                ((state.0 + digit_value_spec(current) - digit_value_spec(last)) as nat, None)
            } else {
                (state.0 + digit_value_spec(last), Some(current))
            }
        },
        None => {
            if is_subtractive(current) {
                (state.0, Some(current))
            } else {
                (state.0 + digit_value_spec(current), None)
            }
        },
    }
}

/// The state reached from `state` after reading all of `text`.
pub open spec fn read_digits(state: (nat, Option<char>), text: Seq<char>) -> (nat, Option<char>)
    decreases text.len(),
{
    if text.len() == 0 {
        state
    } else {
        read_digit(read_digits(state, text.drop_last()), text.last())
    }
}

/// The number that the reduction gives for `text`: the sum after the last
/// digit, plus what is still pending.
pub open spec fn decoded(text: Seq<char>) -> nat {
    let state = read_digits((0, None), text);
    state.0 + pending_value(state.1)
}

/// `Roman` represents all valid Roman numerals.
#[derive(Debug, PartialEq, Eq, Hash)]
pub struct Roman {
    value: String,
}

impl View for Roman {
    type V = Seq<char>;

    closed spec fn view(&self) -> Seq<char> {
        self.value@
    }
}

impl Roman {
    #[verifier::type_invariant]
    spec fn well_formed(self) -> bool {
        self.value@.len() > 0 && is_canonical(self.value@)
    }

    /// The number that this numeral stands for.
    pub open spec fn number(&self) -> nat {
        decoded(self@)
    }

    /// The value of a single Roman digit; any other character counts as 0.
    pub fn digit_value(digit: char) -> (value: u32)
        ensures
            value == digit_value_spec(digit),
    {
        match digit {
            'I' => 1,
            'V' => 5,
            'X' => 10,
            'L' => 50,
            'C' => 100,
            'D' => 500,
            'M' => 1000,
            _ => 0,
        }
    }

    /// Whether `value` belongs to the canonical grammar. The empty string
    /// does.
    pub fn is_valid(value: &str) -> (valid: bool)
        ensures
            valid == is_canonical(value@),
    {
        let chars = chars_of(value);
        let thousands = count_run(&chars, 0, 'M', 3);
        let (hundreds, end_h) = read_place(&chars, thousands, 'C', 'D', 'M');
        let (tens, end_t) = read_place(&chars, end_h, 'X', 'L', 'C');
        let (units, end_u) = read_place(&chars, end_t, 'I', 'V', 'X');
        let valid = end_u == chars.len();
        proof {
            let text = value@;
            if valid {
                assert(text.subrange(0, thousands as int) =~= repeated('M', thousands as nat));
                assert(text =~= text.subrange(0, thousands as int) + text.subrange(
                    thousands as int,
                    end_h as int,
                ) + text.subrange(end_h as int, end_t as int) + text.subrange(
                    end_t as int,
                    end_u as int,
                ));
                assert(text == spelled(
                    thousands as nat,
                    hundreds as nat,
                    tens as nat,
                    units as nat,
                ));
            }
            if is_canonical(text) {
                let (m, h, t, u) = choose|m: nat, h: nat, t: nat, u: nat|
                    m <= 3 && h <= 9 && t <= 9 && u <= 9 && text == #[trigger] spelled(m, h, t, u);
                lemma_spelled_parts(m, h, t, u);
                if thousands < m {
                    assert(text[thousands as int] == 'M');
                }
                if m < thousands {
                    assert(text[m as int] == 'M');
                }
                assert(thousands == m);
                let at_h = m + place(h, 'C', 'D', 'M').len();
                assert(place_at(text, m as int, at_h as int, h, 'C', 'D', 'M'));
                let at_t = at_h + place(t, 'X', 'L', 'C').len();
                assert(place_at(text, at_h as int, at_t as int, t, 'X', 'L', 'C'));
                assert(place_at(text, at_t as int, text.len() as int, u, 'I', 'V', 'X'));
                assert(valid);
            }
        }
        valid
    }
}

impl Clone for Roman {
    fn clone(&self) -> (copy: Roman)
        ensures
            copy@ == self@,
    {
        proof {
            use_type_invariant(self);
        }
        Roman { value: self.value.clone() }
    }
}

impl TryFrom<String> for Roman {
    type Error = InvalidRomanNumeral;

    /// Accepts `value` if and only if it is not empty and belongs to the
    /// canonical grammar. It is then the numeral of the number that it stands
    /// for, which is one from 1 to 3999.
    fn try_from(value: String) -> (result: Result<Roman, InvalidRomanNumeral>)
        ensures
            result is Ok <==> value@.len() > 0 && is_canonical(value@),
            result matches Ok(roman) ==> roman@ == value@ && 1 <= roman.number() <= 3999
                && value@ == numeral(roman.number()),
    {
        if value.as_str().is_empty() {
            return Err(InvalidRomanNumeral);
        }
        if Roman::is_valid(value.as_str()) {
            proof {
                lemma_canonical_is_numeral(value@);
            }
            Ok(Roman { value })
        } else {
            Err(InvalidRomanNumeral)
        }
    }
}

impl TryFromSpecImpl<String> for Roman {
    open spec fn obeys_try_from_spec() -> bool {
        true
    }

    closed spec fn try_from_spec(value: String) -> Result<Roman, InvalidRomanNumeral> {
        if value@.len() > 0 && is_canonical(value@) {
            Ok(Roman { value })
        } else {
            Err(InvalidRomanNumeral)
        }
    }
}

impl<'a> TryFrom<&'a str> for Roman {
    type Error = InvalidRomanNumeral;

    /// Accepts `value` if and only if it is not empty and belongs to the
    /// canonical grammar. It is then the numeral of the number that it stands
    /// for, which is one from 1 to 3999.
    fn try_from(value: &'a str) -> (result: Result<Roman, InvalidRomanNumeral>)
        ensures
            result is Ok <==> value@.len() > 0 && is_canonical(value@),
            result matches Ok(roman) ==> roman@ == value@ && 1 <= roman.number() <= 3999
                && value@ == numeral(roman.number()),
    {
        if value.is_empty() {
            return Err(InvalidRomanNumeral);
        }
        Roman::try_from(value.to_owned())
    }
}

/// A spec function cannot make the string of a `Roman` from a borrowed text,
/// so `try_from_spec` says nothing here: what the conversion returns is
/// stated at `try_from`.
impl<'a> TryFromSpecImpl<&'a str> for Roman {
    open spec fn obeys_try_from_spec() -> bool {
        false
    }

    open spec fn try_from_spec(value: &'a str) -> Result<Roman, InvalidRomanNumeral> {
        Err(InvalidRomanNumeral)
    }
}

impl<'a> From<&'a Roman> for u32 {
    /// Decodes the numeral by the left-to-right reduction. The result is the
    /// number from 1 to 3999 whose canonical numeral this is.
    fn from(roman: &'a Roman) -> (value: u32)
        ensures
            value == roman.number(),
            1 <= value <= 3999,
            roman@ == numeral(value as nat),
    {
        proof {
            use_type_invariant(roman);
            lemma_canonical_is_numeral(roman@);
        }
        let chars = chars_of(roman.value.as_str());
        let mut acc: u32 = 0;
        let mut previous: Option<char> = None;
        let mut i: usize = 0;
        while i < chars.len()
            invariant
                i <= chars.len(),
                chars@ == roman@,
                (acc as nat, previous) == read_digits((0, None), chars@.take(i as int)),
                acc <= 2000 * i,
                chars.len() <= 15,
            decreases chars.len() - i,
        {
            let current_char = chars[i];
            proof {
                assert(chars@.take(i + 1) =~= chars@.take(i as int).push(current_char));
                lemma_read_push((0, None), chars@.take(i as int), current_char);
            }
            if let Some(last_char) = previous {
                let last_digit = Roman::digit_value(last_char);
                let current_digit = Roman::digit_value(current_char);
                if last_char == current_char {
                    acc += current_digit + last_digit;
                    previous = None;
                } else if last_digit < current_digit {
                    acc += current_digit - last_digit;
                    previous = None;
                } else {
                    acc += last_digit;
                    previous = Some(current_char);
                }
            } else {
                match current_char {
                    'I' | 'X' | 'C' => previous = Some(current_char),
                    _ => acc += Roman::digit_value(current_char),
                }
            }
            i += 1;
        }
        if let Some(last_char) = previous {
            acc += Roman::digit_value(last_char);
        }
        proof {
            assert(chars@.take(i as int) =~= chars@);
        }
        acc
    }
}

impl<'a> FromSpecImpl<&'a Roman> for u32 {
    open spec fn obeys_from_spec() -> bool {
        true
    }

    open spec fn from_spec(roman: &'a Roman) -> u32 {
        roman.number() as u32
    }
}

impl From<Roman> for u32 {
    /// Decodes the numeral by the left-to-right reduction. The result is the
    /// number from 1 to 3999 whose canonical numeral this is.
    fn from(roman: Roman) -> (value: u32)
        ensures
            value == roman.number(),
            1 <= value <= 3999,
            roman@ == numeral(value as nat),
    {
        u32::from(&roman)
    }
}

impl FromSpecImpl<Roman> for u32 {
    open spec fn obeys_from_spec() -> bool {
        true
    }

    open spec fn from_spec(roman: Roman) -> u32 {
        roman.number() as u32
    }
}

/// Counts the copies of `digit` that stand in `chars` from `start` on, up to
/// `limit` of them.
fn count_run(chars: &Vec<char>, start: usize, digit: char, limit: usize) -> (count: usize)
    requires
        start <= chars.len(),
        limit <= 3,
    ensures
        count <= limit,
        start + count <= chars.len(),
        forall|k: int| start <= k < start + count ==> chars[k] == digit,
        count < limit && start + count < chars.len() ==> chars[start + count] != digit,
{
    let mut count: usize = 0;
    while count < limit && start + count < chars.len() && chars[start + count] == digit
        invariant
            count <= limit <= 3,
            start + count <= chars.len(),
            forall|k: int| start <= k < start + count ==> chars[k] == digit,
        decreases limit - count,
    {
        count += 1;
    }
    count
}

/// Reads one decimal place at `start`: the digit it spells and where it ends.
fn read_place(chars: &Vec<char>, start: usize, one: char, five: char, ten: char) -> (found: (
    u32,
    usize,
))
    requires
        start <= chars.len(),
        one != five,
        one != ten,
        five != ten,
    ensures
        found.0 <= 9,
        start <= found.1 <= chars.len(),
        chars@.subrange(start as int, found.1 as int) == place(found.0 as nat, one, five, ten),
        forall|d: nat, end: int| #[trigger]
            place_at(chars@, start as int, end, d, one, five, ten) ==> d == found.0 && end
                == found.1,
{
    let len = chars.len();
    let mut digit: u32 = 0;
    let mut next: usize = start;
    if start < len && chars[start] == one && start + 1 < len && (chars[start + 1] == ten
        || chars[start + 1] == five) {
        digit = if chars[start + 1] == ten {
            9
        } else {
            4
        };
        next = start + 2;
    } else {
        if start < len && chars[start] == five {
            digit = 5;
            next = start + 1;
        }
        let ones = count_run(chars, next, one, 3);
        digit = digit + ones as u32;
        next = next + ones;
    }
    proof {
        let text = chars@;
        lemma_place_literal(digit as nat, one, five, ten);
        assert(text.subrange(start as int, next as int) =~= place(digit as nat, one, five, ten));
        assert forall|d: nat, end: int| #[trigger]
            place_at(text, start as int, end, d, one, five, ten) implies d == digit && end
            == next by {
            lemma_place_literal(d, one, five, ten);
            lemma_place_chars(text, start as int, end, d, one, five, ten);
            let group = place(d, one, five, ten);
            if group.len() > 0 {
                assert(text[start + 0] == group[0]);
            }
            if group.len() > 1 {
                assert(text[start + 1] == group[1]);
            }
            if group.len() > 2 {
                assert(text[start + 2] == group[2]);
            }
            if group.len() > 3 {
                assert(text[start + 3] == group[3]);
            }
        }
    }
    (digit, next)
}

/// The reduction gives every string of the canonical grammar the number that
/// its groups spell.
pub proof fn lemma_decoded_spelled(m: nat, h: nat, t: nat, u: nat)
    requires
        m <= 3,
        h <= 9,
        t <= 9,
        u <= 9,
    ensures
        decoded(spelled(m, h, t, u)) == 1000 * m + 100 * h + 10 * t + u,
{
    let start = (0nat, None::<char>);
    let thousands = repeated('M', m);
    let hundreds = place(h, 'C', 'D', 'M');
    let tens = place(t, 'X', 'L', 'C');
    let units = place(u, 'I', 'V', 'X');
    lemma_read_thousands(m);
    let s1 = read_digits(start, thousands);
    lemma_read_place(s1, h, 'C', 'D', 'M');
    let s2 = read_digits(s1, hundreds);
    lemma_read_place(s2, t, 'X', 'L', 'C');
    let s3 = read_digits(s2, tens);
    lemma_read_place(s3, u, 'I', 'V', 'X');
    lemma_read_concat(start, thousands, hundreds);
    lemma_read_concat(start, thousands + hundreds, tens);
    lemma_read_concat(start, thousands + hundreds + tens, units);
    let s4 = read_digits(s3, units);
    assert(read_digits(start, spelled(m, h, t, u)) == s4);
    assert(s1.0 + pending_value(s1.1) == 1000 * m);
    assert(s2.0 + pending_value(s2.1) == 1000 * m + 100 * h);
    assert(s3.0 + pending_value(s3.1) == 1000 * m + 100 * h + 10 * t);
    assert(s4.0 + pending_value(s4.1) == 1000 * m + 100 * h + 10 * t + u);
}

/// For any number from 1 to 3999, the reduction gives the canonical numeral
/// of that number the number itself.
pub proof fn lemma_decoded_numeral(n: nat)
    requires
        1 <= n <= 3999,
    ensures
        is_canonical(numeral(n)),
        numeral(n).len() > 0,
        decoded(numeral(n)) == n,
{
    let m = n / 1000;
    let below_thousand = n % 1000;
    let h = below_thousand / 100;
    let below_hundred = below_thousand % 100;
    let t = below_hundred / 10;
    let u = below_hundred % 10;
    lemma_fundamental_div_mod(n as int, 1000);
    lemma_fundamental_div_mod(below_thousand as int, 100);
    lemma_fundamental_div_mod(below_hundred as int, 10);
    lemma_decimal_digits(m, h, t, u);
    lemma_decoded_spelled(m, h, t, u);
    assert(numeral(n) == spelled(m, h, t, u));
    assert(is_canonical(numeral(n)));
    assert(decoded(Seq::<char>::empty()) == 0);
}

/// Every string of the canonical grammar is the numeral of the number that
/// the reduction gives for it, and that number is below 4000.
pub proof fn lemma_canonical_is_numeral(text: Seq<char>)
    requires
        is_canonical(text),
    ensures
        decoded(text) <= 3999,
        text == numeral(decoded(text)),
        text.len() > 0 ==> decoded(text) >= 1,
        text.len() <= 15,
{
    let (m, h, t, u) = choose|m: nat, h: nat, t: nat, u: nat|
        m <= 3 && h <= 9 && t <= 9 && u <= 9 && text == #[trigger] spelled(m, h, t, u);
    lemma_decoded_spelled(m, h, t, u);
    lemma_decimal_digits(m, h, t, u);
    let n = 1000 * m + 100 * h + 10 * t + u;
    assert(decoded(text) == n);
    assert(numeral(n) == spelled(m, h, t, u));
    if n == 0 {
        assert(m == 0 && h == 0 && t == 0 && u == 0);
        assert(spelled(0, 0, 0, 0) =~= Seq::<char>::empty());
    }
    lemma_place_first(h, 'C', 'D', 'M');
    lemma_place_first(t, 'X', 'L', 'C');
    lemma_place_first(u, 'I', 'V', 'X');
}

} // verus!
