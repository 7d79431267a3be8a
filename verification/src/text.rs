//! Rendering of numbers into log text.

use vstd::prelude::*;
use vstd::string::StringExecFns;

verus! {

/// The character of one digit in any base up to sixteen.
pub open spec fn digit(value: nat) -> char {
    if value == 0 { '0' }
    else if value == 1 { '1' }
    else if value == 2 { '2' }
    else if value == 3 { '3' }
    else if value == 4 { '4' }
    else if value == 5 { '5' }
    else if value == 6 { '6' }
    else if value == 7 { '7' }
    else if value == 8 { '8' }
    else if value == 9 { '9' }
    else if value == 10 { 'a' }
    else if value == 11 { 'b' }
    else if value == 12 { 'c' }
    else if value == 13 { 'd' }
    else if value == 14 { 'e' }
    else { 'f' }
}

/// `value` written in decimal without leading zeros.
pub open spec fn decimal(value: nat) -> Seq<char>
    decreases value,
{
    if value < 10 {
        seq![digit(value)]
    } else {
        decimal(value / 10).push(digit(value % 10))
    }
}

/// `value` written in lower-case hexadecimal digits without leading zeros.
pub open spec fn hex_digits(value: nat) -> Seq<char>
    decreases value,
{
    if value < 16 {
        seq![digit(value)]
    } else {
        hex_digits(value / 16).push(digit(value % 16))
    }
}

/// `value` in hexadecimal behind its `0x` prefix.
pub open spec fn hexadecimal(value: nat) -> Seq<char> {
    "0x"@ + hex_digits(value)
}

/// A flag written as `1` or `0`.
pub open spec fn flag(value: bool) -> Seq<char> {
    decimal(if value { 1 } else { 0 })
}

/// A signed number in decimal.
pub open spec fn signed_decimal(value: int) -> Seq<char> {
    if value < 0 {
        "-"@ + decimal((-value) as nat)
    } else {
        decimal(value as nat)
    }
}

fn digit_text(value: u64) -> (text: &'static str)
    requires
        value < 16,
    ensures
        text@ == seq![digit(value as nat)],
{
    proof {
        reveal_strlit("0");
        reveal_strlit("1");
        reveal_strlit("2");
        reveal_strlit("3");
        reveal_strlit("4");
        reveal_strlit("5");
        reveal_strlit("6");
        reveal_strlit("7");
        reveal_strlit("8");
        reveal_strlit("9");
        reveal_strlit("a");
        reveal_strlit("b");
        reveal_strlit("c");
        reveal_strlit("d");
        reveal_strlit("e");
        reveal_strlit("f");
    }
    match value {
        0 => "0",
        1 => "1",
        2 => "2",
        3 => "3",
        4 => "4",
        5 => "5",
        6 => "6",
        7 => "7",
        8 => "8",
        9 => "9",
        10 => "a",
        11 => "b",
        12 => "c",
        13 => "d",
        14 => "e",
        _ => "f",
    }
}

/// Append a string to `out`.
pub fn append_text(out: &mut String, text: &str)
    ensures
        final(out)@ == old(out)@ + text@,
{
    out.append(text);
}

/// Append `value` in decimal to `out`.
pub fn append_decimal(out: &mut String, value: u64)
    ensures
        final(out)@ == old(out)@ + decimal(value as nat),
    decreases value,
{
    if value >= 10 {
        append_decimal(out, value / 10);
    }
    out.append(digit_text(value % 10));
    assert(out@ =~= old(out)@ + decimal(value as nat));
}

/// Append `value` in decimal, with its sign, to `out`.
pub fn append_signed(out: &mut String, value: i64)
    ensures
        final(out)@ == old(out)@ + signed_decimal(value as int),
{
    if value < 0 {
        out.append("-");
        let magnitude: u64 = if value == i64::MIN {
            0x8000_0000_0000_0000
        } else {
            (-value) as u64
        };
        append_decimal(out, magnitude);
        assert(out@ =~= old(out)@ + signed_decimal(value as int));
    } else {
        append_decimal(out, value as u64);
    }
}

fn append_hex_digits(out: &mut String, value: u64)
    ensures
        final(out)@ == old(out)@ + hex_digits(value as nat),
    decreases value,
{
    if value >= 16 {
        append_hex_digits(out, value / 16);
    }
    out.append(digit_text(value % 16));
    assert(out@ =~= old(out)@ + hex_digits(value as nat));
}

/// Append `value` in hexadecimal, behind `0x`, to `out`.
pub fn append_hexadecimal(out: &mut String, value: u64)
    ensures
        final(out)@ == old(out)@ + hexadecimal(value as nat),
{
    out.append("0x");
    append_hex_digits(out, value);
    assert(out@ =~= old(out)@ + hexadecimal(value as nat));
}

/// Append a flag as `1` or `0` to `out`.
pub fn append_flag(out: &mut String, value: bool)
    ensures
        final(out)@ == old(out)@ + flag(value),
{
    append_decimal(out, if value { 1 } else { 0 });
}

/// `value` in decimal.
pub fn decimal_text(value: u64) -> (text: String)
    ensures
        text@ == decimal(value as nat),
{
    let mut text = String::new();
    append_decimal(&mut text, value);
    assert(text@ =~= decimal(value as nat));
    text
}

/// `value` in hexadecimal behind `0x`.
pub fn hexadecimal_text(value: u64) -> (text: String)
    ensures
        text@ == hexadecimal(value as nat),
{
    let mut text = String::new();
    append_hexadecimal(&mut text, value);
    assert(text@ =~= hexadecimal(value as nat));
    text
}

/// A flag as `1` or `0`.
pub fn flag_text(value: bool) -> (text: String)
    ensures
        text@ == flag(value),
{
    decimal_text(if value { 1 } else { 0 })
}

/// `value` in decimal with its sign.
pub fn signed_text(value: i64) -> (text: String)
    ensures
        text@ == signed_decimal(value as int),
{
    let mut text = String::new();
    append_signed(&mut text, value);
    assert(text@ =~= signed_decimal(value as int));
    text
}

/// A copy of `text`.
pub fn owned(text: &str) -> (copy: String)
    ensures
        copy@ == text@,
{
    String::from_str(text)
}

/// The value that a run of digits in `base` denotes.
pub open spec fn digits_value(text: Seq<char>, base: nat) -> nat
    decreases text.len(),
{
    if text.len() == 0 {
        0
    } else {
        digits_value(text.drop_last(), base) * base + digit_value(text.last())
    }
}

/// The value of one digit.
pub open spec fn digit_value(c: char) -> nat {
    if '0' <= c <= '9' {
        (c as nat - '0' as nat) as nat
    } else {
        (c as nat - 'a' as nat + 10) as nat
    }
}

/// Reading back a rendered decimal number gives the number: two different
/// numbers never render alike.
pub proof fn law_decimal_reads_back(value: nat)
    ensures
        digits_value(decimal(value), 10) == value,
    decreases value,
{
    if value < 10 {
        assert(decimal(value).drop_last() =~= Seq::<char>::empty());
        assert(decimal(value).last() == digit(value));
        assert(digits_value(decimal(value).drop_last(), 10) == 0);
    } else {
        law_decimal_reads_back(value / 10);
        assert(decimal(value).drop_last() =~= decimal(value / 10));
    }
}

/// Reading back a rendered hexadecimal number gives the number.
pub proof fn law_hexadecimal_reads_back(value: nat)
    ensures
        digits_value(hex_digits(value), 16) == value,
    decreases value,
{
    if value < 16 {
        assert(hex_digits(value).drop_last() =~= Seq::<char>::empty());
        assert(hex_digits(value).last() == digit(value));
        assert(digits_value(hex_digits(value).drop_last(), 16) == 0);
    } else {
        law_hexadecimal_reads_back(value / 16);
        assert(hex_digits(value).drop_last() =~= hex_digits(value / 16));
    }
}

/// A number has no leading zero, and a flag and a sign read as what they are.
pub proof fn law_numbers_are_written_without_leading_zeros(value: nat)
    ensures
        decimal(value).len() > 0,
        hex_digits(value).len() > 0,
        value > 0 ==> decimal(value)[0] != '0',
        value > 0 ==> hex_digits(value)[0] != '0',
    decreases value,
{
    if value >= 10 {
        law_numbers_are_written_without_leading_zeros(value / 10);
        assert(decimal(value)[0] == decimal(value / 10)[0]);
    }
    if value >= 16 {
        law_numbers_are_written_without_leading_zeros(value / 16);
        assert(hex_digits(value)[0] == hex_digits(value / 16)[0]);
    }
}

/// A flag is one digit, and two flags read alike exactly where they are.
pub proof fn law_a_flag_is_one_digit(a: bool, b: bool)
    ensures
        flag(a).len() == 1,
        flag(a)[0] == if a {
            '1'
        } else {
            '0'
        },
        flag(a) == flag(b) <==> a == b,
{
    if flag(a) == flag(b) {
        assert(flag(a)[0] == flag(b)[0]);
    }
}

/// A signed number is its digits, behind a minus exactly where it is negative; a hexadecimal
/// one stands behind its prefix.
pub proof fn law_a_sign_stands_before_its_number(value: int, hex: nat)
    ensures
        value >= 0 ==> digits_value(signed_decimal(value), 10) == value,
        value < 0 ==> signed_decimal(value)[0] == '-' && digits_value(
            signed_decimal(value).skip(1),
            10,
        ) == -value,
        hexadecimal(hex)[0] == '0',
        hexadecimal(hex)[1] == 'x',
        digits_value(hexadecimal(hex).skip(2), 16) == hex,
{
    reveal_strlit("-");
    reveal_strlit("0x");
    if value < 0 {
        assert(signed_decimal(value).skip(1) =~= decimal((-value) as nat));
        law_decimal_reads_back((-value) as nat);
    } else {
        law_decimal_reads_back(value as nat);
    }
    assert(hexadecimal(hex).skip(2) =~= hex_digits(hex));
    law_hexadecimal_reads_back(hex);
}

} // verus!
