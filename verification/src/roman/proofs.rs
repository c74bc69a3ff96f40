//! Lemmas on the grammar of the numerals and on the reduction that decodes
//! them.
use vstd::arithmetic::div_mod::lemma_fundamental_div_mod_converse;
use vstd::prelude::*;

use crate::roman::digit_value_spec;
use crate::roman::pending_value;
use crate::roman::place;
use crate::roman::read_digit;
use crate::roman::read_digits;
use crate::roman::repeated;
use crate::roman::spelled;

verus! {

/// Reading `text` and then one more digit is one more step.
pub(crate) proof fn lemma_read_push(state: (nat, Option<char>), text: Seq<char>, digit: char)
    ensures
        read_digits(state, text.push(digit)) == read_digit(read_digits(state, text), digit),
{
    assert(text.push(digit).drop_last() =~= text);
}

/// Reading a concatenation is reading its parts in turn.
pub(crate) proof fn lemma_read_concat(state: (nat, Option<char>), first: Seq<char>, second: Seq<char>)
    ensures
        read_digits(state, first + second) == read_digits(read_digits(state, first), second),
    decreases second.len(),
{
    if second.len() == 0 {
        assert(first + second =~= first);
    } else {
        lemma_read_concat(state, first, second.drop_last());
        assert((first + second).drop_last() =~= first + second.drop_last());
    }
}

pub(crate) proof fn lemma_read_short(state: (nat, Option<char>), a: char, b: char, c: char, d: char)
    ensures
        read_digits(state, Seq::<char>::empty()) == state,
        read_digits(state, seq![a]) == read_digit(state, a),
        read_digits(state, seq![a, b]) == read_digit(read_digit(state, a), b),
        read_digits(state, seq![a, b, c]) == read_digit(read_digit(read_digit(state, a), b), c),
        read_digits(state, seq![a, b, c, d]) == read_digit(
            read_digit(read_digit(read_digit(state, a), b), c),
            d,
        ),
{
    let none = Seq::<char>::empty();
    lemma_read_push(state, none, a);
    lemma_read_push(state, none.push(a), b);
    lemma_read_push(state, none.push(a).push(b), c);
    lemma_read_push(state, none.push(a).push(b).push(c), d);
    assert(seq![a] =~= none.push(a));
    assert(seq![a, b] =~= none.push(a).push(b));
    assert(seq![a, b, c] =~= none.push(a).push(b).push(c));
    assert(seq![a, b, c, d] =~= none.push(a).push(b).push(c).push(d));
}

/// The three decimal places below the thousands, by their symbols.
pub open spec fn is_place(one: char, five: char, ten: char) -> bool {
    ||| (one == 'C' && five == 'D' && ten == 'M')
    ||| (one == 'X' && five == 'L' && ten == 'C')
    ||| (one == 'I' && five == 'V' && ten == 'X')
}

/// What the digit `d` is worth in the decimal place whose unit is `one`.
pub open spec fn place_worth(d: nat, one: char) -> nat {
    if one == 'C' {
        100 * d
    } else if one == 'X' {
        10 * d
    } else {
        d
    }
}

pub(crate) proof fn lemma_place_literal(d: nat, one: char, five: char, ten: char)
    requires
        d <= 9,
    ensures
        d == 0 ==> place(d, one, five, ten) == Seq::<char>::empty(),
        d == 1 ==> place(d, one, five, ten) == seq![one],
        d == 2 ==> place(d, one, five, ten) == seq![one, one],
        d == 3 ==> place(d, one, five, ten) == seq![one, one, one],
        d == 4 ==> place(d, one, five, ten) == seq![one, five],
        d == 5 ==> place(d, one, five, ten) == seq![five],
        d == 6 ==> place(d, one, five, ten) == seq![five, one],
        d == 7 ==> place(d, one, five, ten) == seq![five, one, one],
        d == 8 ==> place(d, one, five, ten) == seq![five, one, one, one],
        d == 9 ==> place(d, one, five, ten) == seq![one, ten],
{
    let spelling = place(d, one, five, ten);
    if d == 0 {
        assert(spelling =~= Seq::<char>::empty());
    } else if d == 1 {
        assert(spelling =~= seq![one]);
    } else if d == 2 {
        assert(spelling =~= seq![one, one]);
    } else if d == 3 {
        assert(spelling =~= seq![one, one, one]);
    } else if d == 5 {
        assert(spelling =~= seq![five]);
    } else if d == 6 {
        assert(spelling =~= seq![five, one]);
    } else if d == 7 {
        assert(spelling =~= seq![five, one, one]);
    } else if d == 8 {
        assert(spelling =~= seq![five, one, one, one]);
    }
}

/// Reading one decimal place adds its worth to what the state stands for,
/// whatever digit of a higher place was still pending.
pub(crate) proof fn lemma_read_place(state: (nat, Option<char>), d: nat, one: char, five: char, ten: char)
    requires
        d <= 9,
        is_place(one, five, ten),
        state.1 matches Some(last) ==> digit_value_spec(last) >= digit_value_spec(ten),
    ensures
        ({
            let after = read_digits(state, place(d, one, five, ten));
            &&& after.0 + pending_value(after.1) == state.0 + pending_value(state.1) + place_worth(
                d,
                one,
            )
            &&& after.1 matches Some(last) ==> digit_value_spec(last) >= digit_value_spec(one)
        }),
{
    lemma_place_literal(d, one, five, ten);
    lemma_read_short(state, one, one, one, one);
    lemma_read_short(state, one, five, one, one);
    lemma_read_short(state, one, ten, one, one);
    lemma_read_short(state, five, one, one, one);
}

pub(crate) proof fn lemma_read_thousands(m: nat)
    requires
        m <= 3,
    ensures
        read_digits((0, None), repeated('M', m)) == ((1000 * m) as nat, None::<char>),
{
    let start = (0nat, None::<char>);
    lemma_read_short(start, 'M', 'M', 'M', 'M');
    if m == 0 {
        assert(repeated('M', m) =~= Seq::<char>::empty());
    } else if m == 1 {
        assert(repeated('M', m) =~= seq!['M']);
    } else if m == 2 {
        assert(repeated('M', m) =~= seq!['M', 'M']);
    } else {
        assert(repeated('M', m) =~= seq!['M', 'M', 'M']);
    }
}

pub(crate) proof fn lemma_decimal_digits(m: nat, h: nat, t: nat, u: nat)
    requires
        h <= 9,
        t <= 9,
        u <= 9,
    ensures
        ({
            let n = 1000 * m + 100 * h + 10 * t + u;
            n / 1000 == m && (n / 100) % 10 == h && (n / 10) % 10 == t && n % 10 == u
        }),
{
    let n = (1000 * m + 100 * h + 10 * t + u) as int;
    lemma_fundamental_div_mod_converse(n, 1000, m as int, (100 * h + 10 * t + u) as int);
    lemma_fundamental_div_mod_converse(n, 100, (10 * m + h) as int, (10 * t + u) as int);
    lemma_fundamental_div_mod_converse((10 * m + h) as int, 10, m as int, h as int);
    lemma_fundamental_div_mod_converse(n, 10, (100 * m + 10 * h + t) as int, u as int);
    lemma_fundamental_div_mod_converse(
        (100 * m + 10 * h + t) as int,
        10,
        (10 * m + h) as int,
        t as int,
    );
}

/// `text` holds the spelling of `d` from `start` to `end`, and the group
/// cannot go on after `end`.
pub open spec fn place_at(
    text: Seq<char>,
    start: int,
    end: int,
    d: nat,
    one: char,
    five: char,
    ten: char,
) -> bool {
    &&& 0 <= start <= end <= text.len()
    &&& d <= 9
    &&& text.subrange(start, end) == place(d, one, five, ten)
    &&& end < text.len() ==> text[end] != one && text[end] != five && text[end] != ten
}

pub(crate) proof fn lemma_place_chars(
    text: Seq<char>,
    start: int,
    end: int,
    d: nat,
    one: char,
    five: char,
    ten: char,
)
    requires
        place_at(text, start, end, d, one, five, ten),
    ensures
        end - start == place(d, one, five, ten).len(),
        forall|k: int|
            0 <= k < end - start ==> text[start + k] == #[trigger] place(d, one, five, ten)[k],
{
    let group = text.subrange(start, end);
    assert forall|k: int| 0 <= k < end - start implies text[start + k] == #[trigger] place(
        d,
        one,
        five,
        ten,
    )[k] by {
        assert(group[k] == text[start + k]);
    }
}

pub(crate) proof fn lemma_place_first(d: nat, one: char, five: char, ten: char)
    requires
        d <= 9,
    ensures
        place(d, one, five, ten).len() <= 4,
        d == 0 <==> place(d, one, five, ten).len() == 0,
        d > 0 ==> place(d, one, five, ten)[0] == one || place(d, one, five, ten)[0] == five,
{
    lemma_place_literal(d, one, five, ten);
}

/// Where the groups of a canonical string stand in it.
pub(crate) proof fn lemma_spelled_parts(m: nat, h: nat, t: nat, u: nat)
    requires
        m <= 3,
        h <= 9,
        t <= 9,
        u <= 9,
    ensures
        ({
            let text = spelled(m, h, t, u);
            let end_h = m + place(h, 'C', 'D', 'M').len();
            let end_t = end_h + place(t, 'X', 'L', 'C').len();
            &&& text.len() == end_t + place(u, 'I', 'V', 'X').len()
            &&& forall|k: int| 0 <= k < m ==> text[k] == 'M'
            &&& m < text.len() ==> text[m as int] != 'M'
            &&& place_at(text, m as int, end_h as int, h, 'C', 'D', 'M')
            &&& place_at(text, end_h as int, end_t as int, t, 'X', 'L', 'C')
            &&& place_at(text, end_t as int, text.len() as int, u, 'I', 'V', 'X')
        }),
{
    let text = spelled(m, h, t, u);
    let hundreds = place(h, 'C', 'D', 'M');
    let tens = place(t, 'X', 'L', 'C');
    let units = place(u, 'I', 'V', 'X');
    let end_h = (m + hundreds.len()) as int;
    let end_t = (end_h + tens.len()) as int;
    lemma_place_first(h, 'C', 'D', 'M');
    lemma_place_first(t, 'X', 'L', 'C');
    lemma_place_first(u, 'I', 'V', 'X');
    assert(text.subrange(m as int, end_h) =~= hundreds);
    assert(text.subrange(end_h, end_t) =~= tens);
    assert(text.subrange(end_t, text.len() as int) =~= units);
    if hundreds.len() > 0 {
        assert(text[m as int] == hundreds[0]);
    }
    if tens.len() > 0 {
        assert(text[end_h] == tens[0]);
    }
    if units.len() > 0 {
        assert(text[end_t] == units[0]);
    }
}

} // verus!
