//! Decimal and hexadecimal numerals.

use crate::text::chars_of;
use vstd::prelude::*;

verus! {

pub open spec fn digit_char(digit: int) -> char {
    (48 + digit) as char
}

pub open spec fn is_digit(c: char) -> bool {
    '0' <= c <= '9'
}

/// The decimal numeral of a number, without leading zeros.
pub open spec fn decimal(n: nat) -> Seq<char>
    decreases n,
{
    if n < 10 {
        seq![digit_char(n as int)]
    } else {
        decimal(n / 10).push(digit_char((n % 10) as int))
    }
}

pub open spec fn all_digits(text: Seq<char>) -> bool {
    forall|i: int| 0 <= i < text.len() ==> is_digit(#[trigger] text[i])
}

/// The number that a row of digits denotes.
pub open spec fn digits_value(text: Seq<char>) -> nat
    decreases text.len(),
{
    if text.len() == 0 {
        0
    } else {
        (digits_value(text.drop_last()) * 10 + (text.last() as int - 48)) as nat
    }
}

/// A numeral without its optional plus sign.
pub open spec fn unsigned_body(text: Seq<char>) -> Seq<char> {
    if text.len() > 0 && text[0] == '+' {
        text.drop_first()
    } else {
        text
    }
}

/// The number that a decimal numeral denotes: an optional plus sign and at
/// least one digit, at most `max`.
pub open spec fn parsed(text: Seq<char>, max: nat) -> Option<nat> {
    let body = unsigned_body(text);
    if body.len() > 0 && all_digits(body) && digits_value(body) <= max {
        Some(digits_value(body))
    } else {
        None
    }
}

fn digit(d: u128) -> (c: char)
    requires
        d < 10,
    ensures
        c == digit_char(d as int),
{
    let code: u8 = 48u8 + d as u8;
    code as char
}

pub fn push_decimal(out: &mut String, n: u128)
    ensures
        final(out)@ == old(out)@ + decimal(n as nat),
    decreases n,
{
    if n >= 10 {
        push_decimal(out, n / 10);
    }
    out.push(digit(n % 10));
}

pub fn decimal_text(n: u128) -> (text: String)
    ensures
        text@ == decimal(n as nat),
{
    let mut out = String::new();
    push_decimal(&mut out, n);
    assert(out@ =~= decimal(n as nat));
    out
}

/// The decimal numeral of a number with its sign.
pub open spec fn signed_decimal(n: int) -> Seq<char> {
    if n < 0 {
        seq!['-'] + decimal((-n) as nat)
    } else {
        decimal(n as nat)
    }
}

pub fn push_signed_decimal(out: &mut String, n: i64)
    ensures
        final(out)@ == old(out)@ + signed_decimal(n as int),
{
    if n < 0 {
        out.push('-');
        let magnitude: u128 = (-(n as i128)) as u128;
        push_decimal(out, magnitude);
    } else {
        push_decimal(out, n as u128);
    }
    assert(out@ =~= old(out)@ + signed_decimal(n as int));
}

proof fn digits_value_grows(text: Seq<char>, i: int)
    requires
        0 <= i <= text.len(),
        all_digits(text.take(i)),
    ensures
        all_digits(text) ==> digits_value(text) >= digits_value(text.take(i)),
    decreases text.len(),
{
    if i == text.len() {
        assert(text.take(i) =~= text);
    } else {
        let shorter = text.drop_last();
        assert(shorter.take(i) =~= text.take(i));
        digits_value_grows(shorter, i);
        if all_digits(text) {
            assert(is_digit(text[text.len() - 1]));
            assert forall|k: int| 0 <= k < shorter.len() implies is_digit(#[trigger] shorter[k]) by {
                assert(is_digit(text[k]));
            }
        }
    }
}

pub fn parse_decimal(text: &str, max: u64) -> (n: Option<u64>)
    ensures
        n is Some <==> parsed(text@, max as nat) is Some,
        n matches Some(value) ==> parsed(text@, max as nat) == Some(value as nat),
{
    let chars = chars_of(text);
    let start: usize = if chars.len() > 0 && chars[0] == '+' {
        1
    } else {
        0
    };
    let ghost body = unsigned_body(text@);
    assert(body =~= chars@.skip(start as int));
    if start == chars.len() {
        return None;
    }
    let mut value: u64 = 0;
    let mut i: usize = start;
    while i < chars.len()
        invariant
            start <= i <= chars.len(),
            start < chars.len(),
            body == chars@.skip(start as int),
            body == unsigned_body(text@),
            all_digits(body.take(i - start)),
            value == digits_value(body.take(i - start)),
            value <= max,
        decreases chars.len() - i,
    {
        let c = chars[i];
        let ghost seen = body.take(i - start);
        let ghost next = body.take(i - start + 1);
        proof {
            assert(next.drop_last() =~= seen);
            assert(next.last() == c);
            assert(body[i - start] == c);
        }
        if c < '0' || c > '9' {
            assert(!is_digit(body[i - start]));
            return None;
        }
        let d: u64 = c as u64 - 48;
        proof {
            assert forall|k: int| 0 <= k < next.len() implies is_digit(#[trigger] next[k]) by {
                if k < seen.len() {
                    assert(next[k] == seen[k]);
                }
            }
        }
        if d > max || value > (max - d) / 10 {
            proof {
                assert(digits_value(next) > max);
                digits_value_grows(body, i - start + 1);
            }
            return None;
        }
        value = value * 10 + d;
        i += 1;
    }
    assert(body.take(i - start) =~= body);
    Some(value)
}

/// The number that a decimal numeral with an optional sign denotes, where a
/// signed 64-bit number can hold it.
pub open spec fn parsed_signed(text: Seq<char>) -> Option<int> {
    if text.len() > 0 && text[0] == '-' {
        let body = text.drop_first();
        if body.len() > 0 && all_digits(body) && digits_value(body) <= 0x8000_0000_0000_0000 {
            Some(-(digits_value(body) as int))
        } else {
            None
        }
    } else {
        match parsed(text, i64::MAX as nat) {
            Some(n) => Some(n as int),
            None => None,
        }
    }
}

pub fn parse_signed_decimal(text: &str) -> (n: Option<i64>)
    ensures
        n is Some <==> parsed_signed(text@) is Some,
        n matches Some(value) ==> parsed_signed(text@) == Some(value as int),
{
    let chars = chars_of(text);
    if chars.len() > 0 && chars[0] == '-' {
        if chars.len() > 1 && chars[1] == '+' {
            assert(!is_digit(text@.drop_first()[0]));
            return None;
        }
        let body = crate::text::slice_text(&chars, 1, chars.len());
        assert(body@ =~= text@.drop_first());
        match parse_decimal(body.as_str(), 0x8000_0000_0000_0000) {
            Some(magnitude) => {
                let negated: i128 = -(magnitude as i128);
                Some(negated as i64)
            },
            None => None,
        }
    } else {
        match parse_decimal(text, i64::MAX as u64) {
            Some(value) => Some(value as i64),
            None => None,
        }
    }
}

proof fn decimal_is_digits(n: nat)
    ensures
        decimal(n).len() > 0,
        all_digits(decimal(n)),
        digits_value(decimal(n)) == n,
    decreases n,
{
    if n < 10 {
        let text = decimal(n);
        assert(text.drop_last() =~= Seq::<char>::empty());
        assert(digits_value(text.drop_last()) == 0);
    } else {
        decimal_is_digits(n / 10);
        let text = decimal(n);
        assert(text.drop_last() =~= decimal(n / 10));
        assert forall|k: int| 0 <= k < text.len() implies is_digit(#[trigger] text[k]) by {
            if k < text.len() - 1 {
                assert(text[k] == decimal(n / 10)[k]);
            }
        }
    }
}

/// Reading a decimal numeral gives back the number that it was written for.
pub proof fn parsing_undoes_writing(n: nat, max: nat)
    requires
        n <= max,
    ensures
        parsed(decimal(n), max) == Some(n),
{
    decimal_is_digits(n);
    assert(is_digit(decimal(n)[0]));
}

/// Two numbers with the same decimal numeral are equal.
pub proof fn decimal_is_injective(a: nat, b: nat)
    requires
        decimal(a) == decimal(b),
    ensures
        a == b,
{
    decimal_is_digits(a);
    decimal_is_digits(b);
}

pub open spec fn hex_char(digit: int) -> char {
    if digit < 10 {
        (48 + digit) as char
    } else {
        (87 + digit) as char
    }
}

/// The sixteen hexadecimal digits of a 64-bit number, most significant first.
pub open spec fn hex16(n: u64) -> Seq<char> {
    Seq::new(16, |i: int| hex_char(((n >> ((60 - 4 * i) as u64)) & 15) as int))
}

fn hex_digit(d: u64) -> (c: char)
    requires
        d <= 15,
    ensures
        c == hex_char(d as int),
{
    let code: u8 = if d < 10 {
        48u8 + d as u8
    } else {
        87u8 + d as u8
    };
    code as char
}

pub fn hex16_text(n: u64) -> (text: String)
    ensures
        text@ == hex16(n),
{
    let mut out = String::new();
    let mut i: u64 = 0;
    while i < 16
        invariant
            i <= 16,
            out@ == hex16(n).take(i as int),
        decreases 16 - i,
    {
        let shift: u64 = 60 - 4 * i;
        let shifted: u64 = n >> shift;
        let nibble: u64 = shifted & 15;
        assert(shifted & 15 <= 15) by (bit_vector);
        out.push(hex_digit(nibble));
        i += 1;
        assert(out@ =~= hex16(n).take(i as int));
    }
    assert(hex16(n).take(16) =~= hex16(n));
    out
}

/// Numbers with the same digits have the same digit at each place.
proof fn same_hex_digit(a: u64, b: u64, i: int)
    requires
        hex16(a) == hex16(b),
        0 <= i < 16,
    ensures
        (a >> ((60 - 4 * i) as u64)) & 15 == (b >> ((60 - 4 * i) as u64)) & 15,
{
    let shifted_a = a >> ((60 - 4 * i) as u64);
    let shifted_b = b >> ((60 - 4 * i) as u64);
    assert(shifted_a & 15 <= 15) by (bit_vector);
    assert(shifted_b & 15 <= 15) by (bit_vector);
    assert(hex16(a)[i] == hex_char((shifted_a & 15) as int));
    assert(hex16(b)[i] == hex_char((shifted_b & 15) as int));
}

/// Different numbers have different hexadecimal digits.
pub proof fn hex16_is_injective(a: u64, b: u64)
    requires
        hex16(a) == hex16(b),
    ensures
        a == b,
{
    same_hex_digit(a, b, 0);
    same_hex_digit(a, b, 1);
    same_hex_digit(a, b, 2);
    same_hex_digit(a, b, 3);
    same_hex_digit(a, b, 4);
    same_hex_digit(a, b, 5);
    same_hex_digit(a, b, 6);
    same_hex_digit(a, b, 7);
    same_hex_digit(a, b, 8);
    same_hex_digit(a, b, 9);
    same_hex_digit(a, b, 10);
    same_hex_digit(a, b, 11);
    same_hex_digit(a, b, 12);
    same_hex_digit(a, b, 13);
    same_hex_digit(a, b, 14);
    same_hex_digit(a, b, 15);
    assert(a == b) by (bit_vector)
        requires
            (a >> 60u64) & 15 == (b >> 60u64) & 15,
            (a >> 56u64) & 15 == (b >> 56u64) & 15,
            (a >> 52u64) & 15 == (b >> 52u64) & 15,
            (a >> 48u64) & 15 == (b >> 48u64) & 15,
            (a >> 44u64) & 15 == (b >> 44u64) & 15,
            (a >> 40u64) & 15 == (b >> 40u64) & 15,
            (a >> 36u64) & 15 == (b >> 36u64) & 15,
            (a >> 32u64) & 15 == (b >> 32u64) & 15,
            (a >> 28u64) & 15 == (b >> 28u64) & 15,
            (a >> 24u64) & 15 == (b >> 24u64) & 15,
            (a >> 20u64) & 15 == (b >> 20u64) & 15,
            (a >> 16u64) & 15 == (b >> 16u64) & 15,
            (a >> 12u64) & 15 == (b >> 12u64) & 15,
            (a >> 8u64) & 15 == (b >> 8u64) & 15,
            (a >> 4u64) & 15 == (b >> 4u64) & 15,
            (a >> 0u64) & 15 == (b >> 0u64) & 15,
    ;
}

/// Hexadecimal digits are no separators of paths.
pub proof fn hex_digits_are_plain(n: u64)
    ensures
        hex16(n).len() == 16,
        forall|i: int|
            0 <= i < 16 ==> {
                let c = #[trigger] hex16(n)[i];
                c != '/' && c != '\\' && c != ':'
            },
{
    assert forall|i: int| 0 <= i < 16 implies {
        let c = #[trigger] hex16(n)[i];
        c != '/' && c != '\\' && c != ':'
    } by {
        let shifted = n >> ((60 - 4 * i) as u64);
        assert(shifted & 15 <= 15) by (bit_vector);
        let digit = (shifted & 15) as int;
        assert(hex16(n)[i] == hex_char(digit));
    }
}

/// The difference, down to zero.
pub open spec fn floored_difference(a: u64, b: u64) -> u64 {
    if a < b {
        0
    } else {
        (a - b) as u64
    }
}

/// The sum, up to the largest number.
pub open spec fn capped_sum(a: u64, b: u64) -> u64 {
    if a + b > u64::MAX {
        u64::MAX
    } else {
        (a + b) as u64
    }
}

/// Numerals count in tens: one more digit is written behind the rest, and a
/// number below ten is the digit that stands in its place from `0` to `9`.
pub proof fn numerals_count_in_tens(n: nat, digit: nat)
    requires
        digit < 10,
    ensures
        n > 0 ==> decimal(10 * n + digit) == decimal(n).push("0123456789"@[digit as int]),
        decimal(digit) == seq!["0123456789"@[digit as int]],
{
    reveal_strlit("0123456789");
    assert("0123456789"@.len() == 10);
    assert((10 * n + digit) / 10 == n && (10 * n + digit) % 10 == digit);
}

/// A text denotes a number exactly if it is made of digits, behind a plus sign
/// or not, at least one of them, and the number is not too large. Digits add up
/// by tens.
pub proof fn texts_of_digits_are_numbers(text: Seq<char>, c: char, max: nat)
    ensures
        parsed(Seq::empty(), max) is None,
        parsed(seq!['+'] + text, max) == (if text.len() > 0 && text[0] == '+' {
            None
        } else {
            parsed(text, max)
        }),
        text.len() > 0 && parsed(text, max) is Some && '0' <= c <= '9' && 10 * (parsed(
            text,
            max,
        )->0) + (c as int - '0' as int) <= max ==> parsed(text.push(c), max) == Some(
            (10 * (parsed(text, max)->0) + (c as int - '0' as int)) as nat,
        ),
        !('0' <= c <= '9') ==> parsed(text.push(c), max) is None,
        '0' <= c <= '9' && (c as int - '0' as int) <= max ==> parsed(seq![c], max) == Some(
            (c as int - '0' as int) as nat,
        ),
        parsed(text, max) matches Some(n) ==> n <= max,
{
    reveal_with_fuel(digits_value, 3);
    let signed = seq!['+'] + text;
    assert(signed.drop_first() =~= text);
    if text.len() > 0 && text[0] == '+' {
        assert(!is_digit(text[0]));
    }
    let body = unsigned_body(text);
    let longer = text.push(c);
    if text.len() > 0 {
        assert(unsigned_body(longer) =~= body.push(c));
        assert(body.push(c).drop_last() =~= body);
        if parsed(text, max) is Some && is_digit(c) {
            assert forall|i: int| 0 <= i < body.push(c).len() implies is_digit(
                #[trigger] body.push(c)[i],
            ) by {
                if i < body.len() {
                    assert(is_digit(body[i]));
                }
            }
        }
    }
    if !is_digit(c) {
        let last = unsigned_body(longer);
        if text.len() == 0 {
            if c == '+' {
                assert(last =~= Seq::empty());
            } else {
                assert(last =~= seq![c]);
                assert(!is_digit(last[0]));
            }
        } else {
            assert(last.last() == c);
            assert(!is_digit(last[last.len() - 1]));
        }
    } else {
        assert(seq![c].drop_last() =~= Seq::empty());
    }
}

/// A negative number is written as its magnitude behind a minus sign, and read
/// back as it was.
pub proof fn signed_numbers_are_read_back(n: i64)
    ensures
        parsed_signed(signed_decimal(n as int)) == Some(n as int),
        n >= 0 ==> signed_decimal(n as int) == decimal(n as nat),
        n < 0 ==> signed_decimal(n as int) == seq!['-'] + decimal((-n) as nat),
{
    if n < 0 {
        decimal_is_digits((-n) as nat);
        assert((seq!['-'] + decimal((-n) as nat)).drop_first() =~= decimal((-n) as nat));
    } else {
        decimal_is_digits(n as nat);
        assert(is_digit(decimal(n as nat)[0]));
        parsing_undoes_writing(n as nat, i64::MAX as nat);
    }
}

/// A sum is what it is up to the largest count, and a difference what it is down
/// to nothing.
pub proof fn counts_stay_in_range(a: u64, b: u64)
    ensures
        a + b <= u64::MAX ==> capped_sum(a, b) == a + b,
        a + b > u64::MAX ==> capped_sum(a, b) == u64::MAX,
        a >= b ==> floored_difference(a, b) == a - b,
        a <= b ==> floored_difference(a, b) == 0,
{
}

/// Hexadecimal numerals count in sixteens: the last of their digits is the rest,
/// and those before it are the digits of the quotient.
pub proof fn hex_digits_count_in_sixteens(n: u64, i: int)
    requires
        0 <= i < 15,
    ensures
        hex16(n).len() == 16,
        hex16(n)[15] == "0123456789abcdef"@[n as int % 16],
        hex16(n)[i] == hex16((n / 16) as u64)[i + 1],
        hex16((n / 16) as u64)[0] == '0',
{
    reveal_strlit("0123456789abcdef");
    assert("0123456789abcdef"@.len() == 16);
    let k = (56 - 4 * i) as u64;
    let more = (60 - 4 * i) as u64;
    let less = (n / 16) as u64;
    assert(n / 16 == n >> 4u64 && (n >> 0u64) & 15 == n % 16 && ((n / 16) >> 60u64) & 15 == 0)
        by (bit_vector);
    assert((n >> 4u64) >> k == n >> more) by (bit_vector)
        requires
            k <= 56,
            more == k + 4,
    ;
    assert(n % 16 < 16);
    assert(hex16(n)[15] == hex_char((n % 16) as int));
    assert(hex16(less)[0] == hex_char(0));
}

} // verus!
