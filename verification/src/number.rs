//! Decimal rendering and parsing of integers.
use vstd::prelude::*;

use crate::text;
use crate::text::chars_of;

verus! {

/// The value of one ASCII digit.
pub open spec fn digit_value(c: char) -> int {
    c as int - '0' as int
}

/// The ASCII digit for a value below ten.
pub open spec fn digit_char(n: int) -> char {
    (n + '0' as int) as char
}

/// The number that a sequence of digits spells; the empty sequence spells zero.
pub open spec fn number(s: Seq<char>) -> int
    decreases s.len(),
{
    if s.len() == 0 {
        0
    } else {
        number(s.drop_last()) * 10 + digit_value(s.last())
    }
}

/// The shortest decimal spelling of a natural number.
pub open spec fn decimal(n: int) -> Seq<char>
    decreases n,
{
    if n < 10 {
        seq![digit_char(n)]
    } else {
        decimal(n / 10).push(digit_char(n % 10))
    }
}

/// The shortest decimal spelling of an integer, with a leading minus where it is negative.
pub open spec fn signed_decimal(n: int) -> Seq<char> {
    if n < 0 {
        seq!['-'] + decimal(-n)
    } else {
        decimal(n)
    }
}

/// The number that `s` spells, where it is an optional plus and at least one digit and the number
/// is at most `max`.
pub open spec fn read_unsigned(s: Seq<char>, max: int) -> Option<int> {
    let digits = if s.len() > 0 && s[0] == '+' {
        s.drop_first()
    } else {
        s
    };
    if digits.len() > 0 && text::all_digits(digits) && number(digits) <= max {
        Some(number(digits))
    } else {
        None
    }
}

/// The number that `s` spells, where it is an optional sign and at least one digit and the number
/// lies between `min` and `max`.
pub open spec fn read_signed(s: Seq<char>, min: int, max: int) -> Option<int> {
    if s.len() > 0 && s[0] == '-' {
        let digits = s.drop_first();
        if digits.len() > 0 && text::all_digits(digits) && -number(digits) >= min {
            Some(-number(digits))
        } else {
            None
        }
    } else {
        read_unsigned(s, max)
    }
}

/// Digits never spell a negative number.
pub proof fn lemma_number_nonnegative(s: Seq<char>)
    requires
        text::all_digits(s),
    ensures
        number(s) >= 0,
    decreases s.len(),
{
    if s.len() > 0 {
        assert(text::is_digit(s.last()));
        assert forall|i: int| 0 <= i < s.drop_last().len() implies text::is_digit(
            #[trigger] s.drop_last()[i],
        ) by {
            assert(text::is_digit(s[i]));
        }
        lemma_number_nonnegative(s.drop_last());
    }
}

/// Fewer of the leading digits spell no larger number.
proof fn lemma_number_prefix(s: Seq<char>, i: int)
    requires
        text::all_digits(s),
        0 <= i <= s.len(),
    ensures
        0 <= number(s.take(i)) <= number(s),
    decreases s.len() - i,
{
    assert(text::all_digits(s.take(i))) by {
        assert forall|j: int| 0 <= j < i implies text::is_digit(#[trigger] s.take(i)[j]) by {
            assert(text::is_digit(s[j]));
        }
    }
    lemma_number_nonnegative(s.take(i));
    if i < s.len() {
        lemma_number_prefix(s, i + 1);
        assert(s.take(i + 1).drop_last() == s.take(i));
        assert(s.take(i + 1).last() == s[i]);
        assert(text::is_digit(s[i]));
    } else {
        assert(s.take(i) == s);
    }
}

/// A spelled natural number is read back: `read_unsigned` undoes `decimal`.
pub proof fn law_numbers_are_read_back(n: int, max: int)
    requires
        0 <= n <= max,
    ensures
        text::all_digits(decimal(n)),
        decimal(n).len() > 0,
        number(decimal(n)) == n,
        read_unsigned(decimal(n), max) == Some(n),
    decreases n,
{
    if n < 10 {
        let s = decimal(n);
        assert(s.drop_last().len() == 0);
        assert(number(s.drop_last()) == 0);
        assert(text::is_digit(s[0]));
    } else {
        law_numbers_are_read_back(n / 10, max);
        let s = decimal(n);
        assert(s.drop_last() == decimal(n / 10));
        assert(text::is_digit(digit_char(n % 10)));
        assert forall|i: int| 0 <= i < s.len() implies text::is_digit(#[trigger] s[i]) by {
            if i < s.len() - 1 {
                assert(s[i] == decimal(n / 10)[i]);
            }
        }
    }
    assert(text::is_digit(decimal(n)[0]));
}

/// A spelled integer is read back: `read_signed` undoes `signed_decimal`.
pub proof fn law_integers_are_read_back(n: int, min: int, max: int)
    requires
        min <= n <= max,
    ensures
        read_signed(signed_decimal(n), min, max) == Some(n),
{
    if n < 0 {
        law_numbers_are_read_back(-n, -n);
        assert(signed_decimal(n).drop_first() == decimal(-n));
    } else {
        law_numbers_are_read_back(n, max);
        assert(text::is_digit(decimal(n)[0]));
    }
}

/// The number that the characters from `from` on spell, where it is at most `max`.
fn magnitude(chars: &Vec<char>, from: usize, max: u128) -> (r: Option<u128>)
    requires
        from <= chars@.len(),
    ensures
        ({
            let digits = chars@.skip(from as int);
            if digits.len() > 0 && text::all_digits(digits) && number(digits) <= max {
                r matches Some(v) && v as int == number(digits)
            } else {
                r is None
            }
        }),
{
    let ghost digits = chars@.skip(from as int);
    if from >= chars.len() {
        return None;
    }
    let mut value: u128 = 0;
    let mut i: usize = from;
    while i < chars.len()
        invariant
            from <= i <= chars@.len(),
            digits == chars@.skip(from as int),
            value as int == number(digits.take(i - from)),
            value <= max,
            forall|j: int| 0 <= j < i - from ==> text::is_digit(#[trigger] digits[j]),
        decreases chars@.len() - i,
    {
        let c = chars[i];
        assert(c == digits[i - from]);
        if !('0' <= c && c <= '9') {
            return None;
        }
        let digit: u128 = (c as u32 - '0' as u32) as u128;
        proof {
            assert(digits.take(i - from + 1).drop_last() == digits.take(i - from));
            assert(digits.take(i - from + 1).last() == c);
            if text::all_digits(digits) {
                lemma_number_prefix(digits, i - from + 1);
            }
        }
        let next: u128 = match value.checked_mul(10) {
            Some(tens) => match tens.checked_add(digit) {
                Some(sum) => sum,
                None => {
                    return None;
                },
            },
            None => {
                return None;
            },
        };
        if next > max {
            return None;
        }
        value = next;
        i = i + 1;
    }
    proof {
        assert(digits.take(i - from) == digits);
    }
    Some(value)
}

/// Reads an unsigned number of at most `max`.
fn unsigned_up_to(s: &str, max: u128) -> (r: Option<u128>)
    ensures
        match r {
            Some(v) => read_unsigned(s@, max as int) == Some(v as int),
            None => read_unsigned(s@, max as int) is None,
        },
{
    let chars = chars_of(s);
    if chars.len() > 0 && chars[0] == '+' {
        proof {
            assert(s@.drop_first() == s@.skip(1));
        }
        magnitude(&chars, 1, max)
    } else {
        proof {
            assert(s@.skip(0) == s@);
        }
        magnitude(&chars, 0, max)
    }
}

/// Reads a signed number whose magnitude is bounded below by `low` and above by `high`.
fn signed_between(s: &str, low: u128, high: u128) -> (r: Option<i128>)
    requires
        low <= 0x8000_0000_0000_0000,
        high <= 0x8000_0000_0000_0000,
    ensures
        match r {
            Some(v) => read_signed(s@, -(low as int), high as int) == Some(v as int),
            None => read_signed(s@, -(low as int), high as int) is None,
        },
{
    let chars = chars_of(s);
    if chars.len() > 0 && chars[0] == '-' {
        proof {
            assert(s@.drop_first() == s@.skip(1));
        }
        match magnitude(&chars, 1, low) {
            Some(v) => Some(-(v as i128)),
            None => None,
        }
    } else {
        match unsigned_up_to(s, high) {
            Some(v) => Some(v as i128),
            None => None,
        }
    }
}

/// An optional number as a mathematical integer.
pub open spec fn opt_u64(o: Option<u64>) -> Option<int> {
    match o {
        Some(v) => Some(v as int),
        None => None,
    }
}

/// An optional number as a mathematical integer.
pub open spec fn opt_i64(o: Option<i64>) -> Option<int> {
    match o {
        Some(v) => Some(v as int),
        None => None,
    }
}

/// An optional number as a mathematical integer.
pub open spec fn opt_u32(o: Option<u32>) -> Option<int> {
    match o {
        Some(v) => Some(v as int),
        None => None,
    }
}

/// An optional number as a mathematical integer.
pub open spec fn opt_i32(o: Option<i32>) -> Option<int> {
    match o {
        Some(v) => Some(v as int),
        None => None,
    }
}

/// An optional number as a mathematical integer.
pub open spec fn opt_usize(o: Option<usize>) -> Option<int> {
    match o {
        Some(v) => Some(v as int),
        None => None,
    }
}

/// An optional number as a mathematical integer.
pub open spec fn opt_u128(o: Option<u128>) -> Option<int> {
    match o {
        Some(v) => Some(v as int),
        None => None,
    }
}

/// Reads a `u128`.
pub fn parse_u128(s: &str) -> (r: Option<u128>)
    ensures
        opt_u128(r) == read_unsigned(s@, u128::MAX as int),
{
    unsigned_up_to(s, u128::MAX)
}

/// Reads a `u64`.
pub fn parse_u64_text(s: &str) -> (r: Option<u64>)
    ensures
        opt_u64(r) == read_unsigned(s@, u64::MAX as int),
{
    match unsigned_up_to(s, u64::MAX as u128) {
        Some(v) => Some(v as u64),
        None => None,
    }
}

/// Reads a `u32`.
pub fn parse_u32_text(s: &str) -> (r: Option<u32>)
    ensures
        opt_u32(r) == read_unsigned(s@, u32::MAX as int),
{
    match unsigned_up_to(s, u32::MAX as u128) {
        Some(v) => Some(v as u32),
        None => None,
    }
}

/// Reads a `usize`.
pub fn parse_usize_text(s: &str) -> (r: Option<usize>)
    ensures
        opt_usize(r) == read_unsigned(s@, usize::MAX as int),
{
    match unsigned_up_to(s, usize::MAX as u128) {
        Some(v) => Some(v as usize),
        None => None,
    }
}

/// Reads an `i64`.
pub fn parse_i64_text(s: &str) -> (r: Option<i64>)
    ensures
        opt_i64(r) == read_signed(s@, i64::MIN as int, i64::MAX as int),
{
    match signed_between(s, 0x8000_0000_0000_0000, 0x7fff_ffff_ffff_ffff) {
        Some(v) => {
            proof {
                lemma_read_signed_range(s@, i64::MIN as int, i64::MAX as int);
            }
            Some(v as i64)
        },
        None => None,
    }
}

/// Reads an `i32`.
pub fn parse_i32_text(s: &str) -> (r: Option<i32>)
    ensures
        opt_i32(r) == read_signed(s@, i32::MIN as int, i32::MAX as int),
{
    match signed_between(s, 0x8000_0000, 0x7fff_ffff) {
        Some(v) => {
            proof {
                lemma_read_signed_range(s@, i32::MIN as int, i32::MAX as int);
            }
            Some(v as i32)
        },
        None => None,
    }
}

/// What `read_signed` gives lies in the range that it was asked for.
pub proof fn lemma_read_signed_range(s: Seq<char>, min: int, max: int)
    requires
        min <= 0 <= max,
    ensures
        read_signed(s, min, max) matches Some(v) ==> min <= v <= max,
{
    if s.len() > 0 && s[0] == '-' {
        if text::all_digits(s.drop_first()) {
            lemma_number_nonnegative(s.drop_first());
        }
    } else {
        if s.len() > 0 && text::all_digits(s.drop_first()) {
            lemma_number_nonnegative(s.drop_first());
        }
        if text::all_digits(s) {
            lemma_number_nonnegative(s);
        }
    }
}

/// Appends the decimal spelling of a number.
fn push_decimal(out: &mut String, n: u64)
    ensures
        final(out)@ == old(out)@ + decimal(n as int),
    decreases n,
{
    if n >= 10 {
        push_decimal(out, n / 10);
    }
    let digit: char = (((n % 10) as u8) + 48) as char;
    proof {
        assert(digit == digit_char(n as int % 10));
    }
    out.push(digit);
    proof {
        assert(old(out)@ + decimal(n as int) == out@);
    }
}

/// The decimal spelling of a `u64`.
pub fn show_u64(n: u64) -> (r: String)
    ensures
        r@ == decimal(n as int),
{
    let mut out = String::new();
    push_decimal(&mut out, n);
    proof {
        assert(Seq::<char>::empty() + decimal(n as int) == decimal(n as int));
    }
    out
}

/// The decimal spelling of a `usize`.
pub fn show_usize(n: usize) -> (r: String)
    ensures
        r@ == decimal(n as int),
{
    show_u64(n as u64)
}

/// The decimal spelling of an `i64`.
pub fn show_i64(n: i64) -> (r: String)
    ensures
        r@ == signed_decimal(n as int),
{
    if n < 0 {
        let mut out = String::new();
        out.push('-');
        let magnitude: u64 = (-(n as i128)) as u64;
        push_decimal(&mut out, magnitude);
        proof {
            assert(out@ == seq!['-'] + decimal(-(n as int)));
        }
        out
    } else {
        show_u64(n as u64)
    }
}

/// A power of ten.
pub open spec fn pow10(n: nat) -> nat
    decreases n,
{
    if n == 0 {
        1
    } else {
        10 * pow10((n - 1) as nat)
    }
}

/// A number is below the power of ten of its length.
pub proof fn lemma_number_bound(s: Seq<char>)
    requires
        text::all_digits(s),
    ensures
        0 <= number(s) < pow10(s.len()),
    decreases s.len(),
{
    if s.len() > 0 {
        lemma_number_bound(s.drop_last());
        assert(text::is_digit(s[s.len() - 1]));
    }
}

/// What follows the plus that may stand before a natural number.
pub open spec fn without_plus(s: Seq<char>) -> Seq<char> {
    if s.len() > 0 && s[0] == '+' {
        s.skip(1)
    } else {
        s
    }
}

/// A natural number is read from digits, with a plus before them or not; from nothing else, and not
/// where it is too large.
pub proof fn law_numbers_are_digits(s: Seq<char>, max: int)
    ensures
        read_unsigned(s, max) is Some <==> without_plus(s).len() > 0 && (forall|i: int|
            0 <= i < without_plus(s).len() ==> '0' <= #[trigger] without_plus(s)[i] <= '9')
            && number(without_plus(s)) <= max,
        read_unsigned(s, max) matches Some(n) ==> n == number(without_plus(s)) && 0 <= n <= max,
{
    if s.len() > 0 {
        assert(s.skip(1) =~= s.drop_first());
    }
    let digits = without_plus(s);
    if text::all_digits(digits) {
        lemma_number_nonnegative(digits);
        assert forall|i: int| 0 <= i < digits.len() implies '0' <= #[trigger] digits[i] <= '9' by {
            assert(text::is_digit(digits[i]));
        }
    }
    if forall|i: int| 0 <= i < digits.len() ==> '0' <= #[trigger] digits[i] <= '9' {
        assert forall|i: int| 0 <= i < digits.len() implies text::is_digit(
            #[trigger] digits[i],
        ) by {
            assert('0' <= digits[i] <= '9');
        }
        assert(text::all_digits(digits));
    }
}

/// Every digit more makes a number ten times as large and adds its value.
pub proof fn law_digits_have_weights(digits: Seq<char>, digit: int)
    requires
        0 <= digit <= 9,
    ensures
        number(digits.push((digit + 48) as char)) == 10 * number(digits) + digit,
        number(Seq::empty()) == 0,
{
    let c = (digit + 48) as char;
    assert(digits.push(c).drop_last() =~= digits);
    assert(c as int == digit + 48);
}

/// A minus turns a number round; without one a number is read as a natural one.
pub proof fn law_signs(s: Seq<char>, min: int, max: int)
    requires
        min <= 0 <= max,
        s.len() == 0 || s[0] != '+',
    ensures
        ({
            let n = read_unsigned(s, -min);
            let m = read_signed(seq!['-'] + s, min, max);
            &&& n is Some <==> m is Some
            &&& n is Some ==> m == Some(-n->0)
            &&& s.len() == 0 || s[0] != '-' ==> read_signed(s, min, max) == read_unsigned(s, max)
        }),
{
    assert((seq!['-'] + s).drop_first() =~= s);
}

} // verus!
