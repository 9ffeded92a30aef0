//! Decimal text of integers: printing and reading.

use vstd::prelude::*;

use crate::text;

verus! {

/// The digit character of `d`, for `d < 10`.
pub open spec fn digit_char(d: nat) -> char {
    (('0' as u32) + d) as char
}

/// Whether `c` is one of `0` to `9`.
pub open spec fn is_digit(c: char) -> bool {
    '0' <= c <= '9'
}

/// The value of a digit character.
pub open spec fn digit_value(c: char) -> nat
    recommends
        is_digit(c),
{
    (c as u32 - '0' as u32) as nat
}

/// The decimal digits of `n`, without leading zeros.
pub open spec fn decimal_nat(n: nat) -> Seq<char>
    decreases n,
{
    if n < 10 {
        seq![digit_char(n)]
    } else {
        decimal_nat(n / 10).push(digit_char(n % 10))
    }
}

/// The decimal text of `n`, with a minus sign where it is negative.
pub open spec fn decimal(n: int) -> Seq<char> {
    if n < 0 {
        seq!['-'] + decimal_nat((-n) as nat)
    } else {
        decimal_nat(n as nat)
    }
}

/// Whether `s` is made of digits only.
pub open spec fn all_digits(s: Seq<char>) -> bool {
    forall|i: int| 0 <= i < s.len() ==> is_digit(s[i])
}

/// The number that a row of digits stands for.
pub open spec fn digits_value(s: Seq<char>) -> nat
    decreases s.len(),
{
    if s.len() == 0 {
        0
    } else {
        digits_value(s.drop_last()) * 10 + digit_value(s.last())
    }
}

/// The integer that `s` writes down: an optional sign and at least one digit.
pub open spec fn integer_of(s: Seq<char>) -> Option<int> {
    if s.len() == 0 {
        None
    } else {
        let signed = s[0] == '-' || s[0] == '+';
        let digits = if signed {
            s.drop_first()
        } else {
            s
        };
        if digits.len() == 0 || !all_digits(digits) {
            None
        } else if s[0] == '-' {
            Some(-(digits_value(digits) as int))
        } else {
            Some(digits_value(digits) as int)
        }
    }
}

/// The `i64` that `s` writes down, if it writes one down.
pub open spec fn i64_of(s: Seq<char>) -> Option<i64> {
    match integer_of(s) {
        Some(n) => if i64::MIN <= n <= i64::MAX {
            Some(n as i64)
        } else {
            None
        },
        None => None,
    }
}

fn digit_of(d: u64) -> (r: char)
    requires
        d < 10,
    ensures
        r == digit_char(d as nat),
{
    match d {
        0 => '0',
        1 => '1',
        2 => '2',
        3 => '3',
        4 => '4',
        5 => '5',
        6 => '6',
        7 => '7',
        8 => '8',
        _ => '9',
    }
}

fn push_decimal(r: &mut String, n: u64)
    ensures
        final(r)@ == old(r)@ + decimal_nat(n as nat),
    decreases n,
{
    if n >= 10 {
        push_decimal(r, n / 10);
    }
    r.push(digit_of(n % 10));
    assert(r@ =~= old(r)@ + decimal_nat(n as nat));
}

/// The decimal text of `n`.
pub fn u64_text(n: u64) -> (r: String)
    ensures
        r@ == decimal(n as int),
{
    let mut r = String::new();
    push_decimal(&mut r, n);
    assert(r@ =~= decimal(n as int));
    r
}

/// The decimal text of `n`.
pub fn i64_text(n: i64) -> (r: String)
    ensures
        r@ == decimal(n as int),
{
    let mut r = String::new();
    if n >= 0 {
        push_decimal(&mut r, n as u64);
    } else {
        r.push('-');
        let m: u64 = if n == i64::MIN {
            0x8000_0000_0000_0000u64
        } else {
            (-n) as u64
        };
        push_decimal(&mut r, m);
    }
    assert(r@ =~= decimal(n as int));
    r
}

/// One more than the largest `i64`: the largest magnitude that an `i64` has.
const MAGNITUDE_LIMIT: u128 = 0x8000_0000_0000_0000u128;

/// Reads the digits from `from` on: `None` where there is another character,
/// else their value, or a value above the limit where it lies above the limit.
fn read_magnitude(chars: &Vec<char>, from: usize) -> (r: Option<u128>)
    requires
        from <= chars@.len(),
    ensures
        match r {
            None => !all_digits(chars@.skip(from as int)),
            Some(v) => {
                &&& all_digits(chars@.skip(from as int))
                &&& v <= MAGNITUDE_LIMIT ==> digits_value(chars@.skip(from as int)) == v
                &&& v > MAGNITUDE_LIMIT ==> digits_value(chars@.skip(from as int))
                    > MAGNITUDE_LIMIT
            },
        },
{
    let ghost digits = chars@.skip(from as int);
    let mut value: u128 = 0;
    let mut i: usize = from;
    assert(digits.take(0) =~= Seq::empty());
    while i < chars.len()
        invariant
            from <= i <= chars@.len(),
            digits == chars@.skip(from as int),
            value <= 10 * MAGNITUDE_LIMIT + 10,
            value <= MAGNITUDE_LIMIT ==> value == digits_value(digits.take(i - from)),
            value > MAGNITUDE_LIMIT ==> digits_value(digits.take(i - from)) > MAGNITUDE_LIMIT,
            forall|j: int| 0 <= j < i - from ==> is_digit(digits[j]),
        decreases chars@.len() - i,
    {
        let c = chars[i];
        let ghost k = i - from;
        assert(digits[k] == c);
        if !('0' <= c && c <= '9') {
            assert(!is_digit(digits[k]));
            return None;
        }
        let d: u128 = (c as u32 - '0' as u32) as u128;
        proof {
            assert(digits.take(k + 1).drop_last() =~= digits.take(k));
            assert(digits.take(k + 1).last() == c);
            assert(digits_value(digits.take(k + 1)) == digits_value(digits.take(k)) * 10 + d);
        }
        if value <= MAGNITUDE_LIMIT {
            value = value * 10 + d;
        }
        i = i + 1;
    }
    assert(digits.take(i - from) =~= digits);
    Some(value)
}

/// The `i64` that `s` writes down: an optional sign, then digits, in range.
pub fn parse_i64(s: &str) -> (r: Option<i64>)
    ensures
        r == i64_of(s@),
{
    let chars = text::chars_of(s);
    if chars.len() == 0 {
        return None;
    }
    let negative = chars[0] == '-';
    let from: usize = if negative || chars[0] == '+' {
        1
    } else {
        0
    };
    proof {
        assert(s@.skip(0) =~= s@);
        assert(s@.skip(1) =~= s@.drop_first());
    }
    if from == chars.len() {
        return None;
    }
    match read_magnitude(&chars, from) {
        None => None,
        Some(value) => {
            if negative {
                if value < MAGNITUDE_LIMIT {
                    Some(-(value as i64))
                } else if value == MAGNITUDE_LIMIT {
                    Some(i64::MIN)
                } else {
                    None
                }
            } else if value < MAGNITUDE_LIMIT {
                Some(value as i64)
            } else {
                None
            }
        },
    }
}

proof fn lemma_decimal_nat(n: nat)
    ensures
        decimal_nat(n).len() > 0,
        all_digits(decimal_nat(n)),
        digits_value(decimal_nat(n)) == n,
    decreases n,
{
    let s = decimal_nat(n);
    if n < 10 {
        assert(s.drop_last() =~= Seq::empty());
        assert(digits_value(s.drop_last()) == 0);
    } else {
        lemma_decimal_nat(n / 10);
        assert(s.drop_last() =~= decimal_nat(n / 10));
        assert forall|i: int| 0 <= i < s.len() implies is_digit(s[i]) by {
            if i < s.len() - 1 {
                assert(s[i] == decimal_nat(n / 10)[i]);
            }
        }
    }
}

/// Decimal text is not empty and holds nothing but digits and a minus sign.
pub proof fn lemma_decimal_chars(n: int)
    ensures
        decimal(n).len() > 0,
        forall|i: int|
            0 <= i < decimal(n).len() ==> is_digit(#[trigger] decimal(n)[i]) || decimal(n)[i]
                == '-',
{
    let digits = decimal_nat(if n < 0 {
        (-n) as nat
    } else {
        n as nat
    });
    lemma_decimal_nat(if n < 0 {
        (-n) as nat
    } else {
        n as nat
    });
    assert forall|i: int| 0 <= i < decimal(n).len() implies is_digit(#[trigger] decimal(n)[i])
        || decimal(n)[i] == '-' by {
        if n < 0 && i > 0 {
            assert(decimal(n)[i] == digits[i - 1]);
        } else if n >= 0 {
            assert(decimal(n)[i] == digits[i]);
        }
    }
}

/// Reading the decimal text of an integer gives the integer back.
pub proof fn law_integer_text_round_trips(n: int)
    ensures
        integer_of(decimal(n)) == Some(n),
        i64::MIN <= n <= i64::MAX ==> i64_of(decimal(n)) == Some(n as i64),
{
    if n < 0 {
        lemma_decimal_nat((-n) as nat);
        assert(decimal(n).drop_first() =~= decimal_nat((-n) as nat));
    } else {
        lemma_decimal_nat(n as nat);
        assert(is_digit(decimal(n)[0]));
    }
}

/// Different integers have different decimal texts.
pub proof fn law_integer_text_is_injective(a: int, b: int)
    requires
        decimal(a) == decimal(b),
    ensures
        a == b,
{
    law_integer_text_round_trips(a);
    law_integer_text_round_trips(b);
}

/// Decimal text is what one writes by hand: a single digit is its character,
/// one more digit stands behind the others, and a negative number has a minus
/// sign before its magnitude.
pub proof fn law_decimal_text_is_written_by_hand(n: nat, d: nat)
    requires
        d < 10,
    ensures
        decimal(d as int) == seq![digit_char(d)],
        n > 0 ==> decimal((10 * n + d) as int) == decimal(n as int).push(digit_char(d)),
        n > 0 ==> decimal(-(n as int)) == seq!['-'] + decimal(n as int),
        digit_char(0) == '0',
        digit_char(9) == '9',
        digit_char(d) as u32 == '0' as u32 + d,
        d < 9 ==> digit_char((d + 1) as nat) as u32 == digit_char(d) as u32 + 1,
{
    if n > 0 {
        let m = 10 * n + d;
        assert(m / 10 == n);
        assert(m % 10 == d);
    }
}

/// Reading takes the whole text as one number: a plus sign changes nothing, a
/// minus sign turns the sign round, one more digit counts the others tenfold,
/// and a text with any other character is no number.
pub proof fn law_integers_are_read_as_written(digits: Seq<char>, d: nat, s: Seq<char>, i: int)
    requires
        digits.len() > 0,
        all_digits(digits),
        d < 10,
    ensures
        ({
            let n = integer_of(digits);
            &&& n is Some
            &&& n->Some_0 >= 0
            &&& integer_of(seq!['+'] + digits) == n
            &&& integer_of(seq!['-'] + digits) == Some(-n->Some_0)
            &&& integer_of(digits.push(digit_char(d))) == Some(n->Some_0 * 10 + d)
            &&& integer_of(seq![digit_char(d)]) == Some(d as int)
        }),
        0 < i < s.len() && !('0' <= s[i] <= '9') ==> integer_of(s) is None,
        s.len() == 0 ==> integer_of(s) is None,
        i64_of(s) matches Some(n) ==> integer_of(s) == Some(n as int),
        integer_of(s) matches Some(n) ==> i64::MIN <= n <= i64::MAX ==> i64_of(s) == Some(n as i64),
{
    assert(is_digit(digits[0]));
    assert((seq!['+'] + digits).drop_first() =~= digits);
    assert((seq!['-'] + digits).drop_first() =~= digits);
    let more = digits.push(digit_char(d));
    assert(is_digit(digit_char(d)));
    assert forall|k: int| 0 <= k < more.len() implies is_digit(more[k]) by {
        if k < digits.len() {
            assert(more[k] == digits[k]);
        }
    }
    assert(more[0] == digits[0]);
    assert(more.drop_last() =~= digits);
    let one = seq![digit_char(d)];
    assert(one.drop_last() =~= Seq::empty());
    assert(digits_value(one.drop_last()) == 0);
    assert(all_digits(one));
    assert(one[0] != '-' && one[0] != '+');
    if 0 < i < s.len() && !is_digit(s[i]) {
        assert(s.drop_first()[i - 1] == s[i]);
    }
}

/// A number begins with a digit or a sign, and a sign alone is none; a number
/// that is too great or too small for its type is none of that type.
pub proof fn law_only_numbers_in_range_are_read(s: Seq<char>, c: char)
    ensures
        s.len() > 0 && !('0' <= s[0] <= '9') && s[0] != '+' && s[0] != '-' ==> integer_of(s)
            is None,
        integer_of(seq!['+']) is None,
        integer_of(seq!['-']) is None,
        integer_of(s) is Some && !(i64::MIN <= integer_of(s)->Some_0 <= i64::MAX) ==> i64_of(s)
            is None,
        integer_of(s) is None ==> i64_of(s) is None,
        is_digit(c) <==> '0' <= c <= '9',
{
    assert(seq!['+'].drop_first().len() == 0);
    assert(seq!['-'].drop_first().len() == 0);
    if s.len() > 0 && !is_digit(s[0]) && s[0] != '+' && s[0] != '-' {
        assert(!all_digits(s));
    }
}

} // verus!
