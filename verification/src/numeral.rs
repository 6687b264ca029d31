//! Whole numbers as text: decimal and hexadecimal digits, and reading them
//! back.

use crate::text::to_chars;
use vstd::prelude::*;

verus! {

/// The character of a decimal digit.
pub open spec fn digit_char(d: nat) -> char {
    (48 + d) as char
}

/// The decimal digits of a number, without leading zeros.
pub open spec fn digits(n: nat) -> Seq<char>
    decreases n,
{
    if n < 10 {
        seq![digit_char(n)]
    } else {
        digits(n / 10).push(digit_char(n % 10))
    }
}

/// A whole number in decimal, with a leading `-` if it is negative.
pub open spec fn decimal(n: int) -> Seq<char> {
    if n < 0 {
        seq!['-'] + digits((-n) as nat)
    } else {
        digits(n as nat)
    }
}

/// Whether the character is one of `0` to `9`.
pub open spec fn is_digit_char(c: char) -> bool {
    '0' <= c <= '9'
}

/// The number that a sequence of decimal digits stands for.
pub open spec fn digits_value(s: Seq<char>) -> nat
    decreases s.len(),
{
    if s.len() == 0 {
        0
    } else {
        digits_value(s.drop_last()) * 10 + (s.last() as nat - 48) as nat
    }
}

/// Whether the text is a non-empty run of decimal digits.
pub open spec fn is_digit_run(s: Seq<char>) -> bool {
    s.len() > 0 && forall|i: int| 0 <= i < s.len() ==> is_digit_char(#[trigger] s[i])
}

/// Whether the text starts with a sign.
pub open spec fn is_signed(s: Seq<char>) -> bool {
    s.len() > 0 && (s[0] == '-' || s[0] == '+')
}

/// The text behind the sign, if there is one.
pub open spec fn unsigned_part(s: Seq<char>) -> Seq<char> {
    if is_signed(s) {
        s.drop_first()
    } else {
        s
    }
}

/// The whole number that a text stands for: digits, with an optional sign
/// before them.
pub open spec fn integer_value(s: Seq<char>) -> Option<int> {
    if !is_digit_run(unsigned_part(s)) {
        None
    } else if s[0] == '-' {
        Some(-digits_value(unsigned_part(s)))
    } else {
        Some(digits_value(unsigned_part(s)) as int)
    }
}

/// The 64-bit number that a text stands for, if it is one.
pub open spec fn i64_value(s: Seq<char>) -> Option<i64> {
    match integer_value(s) {
        Some(v) if i64::MIN <= v <= i64::MAX => Some(v as i64),
        _ => None,
    }
}

/// The lower-case hexadecimal digit of a number below sixteen.
pub open spec fn hex_char(d: nat) -> char {
    if d < 10 {
        (48 + d) as char
    } else {
        (87 + d) as char
    }
}

/// Two lower-case hexadecimal digits for each byte.
pub open spec fn hex(bytes: Seq<u8>) -> Seq<char>
    decreases bytes.len(),
{
    if bytes.len() == 0 {
        Seq::empty()
    } else {
        hex(bytes.drop_last()).push(hex_char(bytes.last() as nat / 16)).push(
            hex_char(bytes.last() as nat % 16),
        )
    }
}

/// The decimal digits of a number.
pub fn digits_text(n: u128) -> (r: String)
    ensures
        r@ == digits(n as nat),
    decreases n,
{
    let d: u8 = (n % 10) as u8;
    let c: char = (48 + d) as char;
    if n < 10 {
        let mut s: String = String::new();
        s.push(c);
        assert(s@ =~= digits(n as nat));
        s
    } else {
        let mut s: String = digits_text(n / 10);
        s.push(c);
        s
    }
}

/// A whole number in decimal.
pub fn decimal_text(n: i64) -> (r: String)
    ensures
        r@ == decimal(n as int),
{
    if n < 0 {
        let mut s: String = String::new();
        s.push('-');
        let rest: String = digits_text((-(n as i128)) as u128);
        s.append(rest.as_str());
        assert(s@ =~= decimal(n as int));
        s
    } else {
        digits_text(n as u128)
    }
}

/// Two lower-case hexadecimal digits for each byte.
pub fn hex_text(bytes: &[u8]) -> (r: String)
    ensures
        r@ == hex(bytes@),
{
    let mut out: String = String::new();
    let mut i: usize = 0;
    while i < bytes.len()
        invariant
            i <= bytes@.len(),
            out@ == hex(bytes@.take(i as int)),
        decreases bytes.len() - i,
    {
        let b: u8 = bytes[i];
        let high: u8 = b / 16;
        let low: u8 = b % 16;
        out.push(if high < 10 { (48 + high) as char } else { (87 + high) as char });
        out.push(if low < 10 { (48 + low) as char } else { (87 + low) as char });
        assert(bytes@.take(i + 1).drop_last() =~= bytes@.take(i as int));
        i += 1;
    }
    assert(bytes@.take(i as int) =~= bytes@);
    out
}

/// Reads a 64-bit number: digits, with an optional sign before them.
pub fn parse_i64(s: &str) -> (r: Option<i64>)
    ensures
        r == i64_value(s@),
{
    let chars: Vec<char> = to_chars(s);
    if chars.len() == 0 {
        return None;
    }
    let negative: bool = chars[0] == '-';
    let start: usize = if negative || chars[0] == '+' { 1 } else { 0 };
    let ghost body = unsigned_part(s@);
    assert(body =~= s@.skip(start as int));
    if start == chars.len() {
        return None;
    }
    let limit: i128 = if negative { 9223372036854775808 } else { 9223372036854775807 };
    let mut value: i128 = 0;
    let mut over: bool = false;
    let mut i: usize = start;
    while i < chars.len()
        invariant
            chars@ == s@,
            start <= i <= chars@.len(),
            start < chars@.len(),
            body == unsigned_part(s@),
            body == s@.skip(start as int),
            limit == if negative { 9223372036854775808int } else { 9223372036854775807int },
            forall|k: int| 0 <= k < i - start ==> is_digit_char(#[trigger] body[k]),
            !over ==> 0 <= value <= limit && value == digits_value(body.take(i - start)),
            over ==> digits_value(body.take(i - start)) > limit,
        decreases chars.len() - i,
    {
        let c: char = chars[i];
        assert(body[i - start] == c);
        if !('0' <= c && c <= '9') {
            assert(!is_digit_char(body[i - start]));
            return None;
        }
        assert(body.take(i - start + 1).drop_last() =~= body.take(i - start));
        if !over {
            value = value * 10 + (c as u8 - 48) as i128;
            if value > limit {
                over = true;
            }
        }
        i += 1;
    }
    assert(body.take(body.len() as int) =~= body);
    if over {
        return None;
    }
    if negative {
        Some((-value) as i64)
    } else {
        Some(value as i64)
    }
}

/// What `digits` writes is a run of digits that stands for the number.
pub proof fn lemma_digits(n: nat)
    ensures
        is_digit_run(digits(n)),
        digits_value(digits(n)) == n,
    decreases n,
{
    if n < 10 {
        assert(digits(n).drop_last() =~= Seq::<char>::empty());
        assert(digits_value(digits(n).drop_last()) == 0);
    } else {
        lemma_digits(n / 10);
        assert(digits(n).drop_last() =~= digits(n / 10));
    }
}

/// A 64-bit number written in decimal reads back as itself.
pub proof fn lemma_decimal_reads_back(n: i64)
    ensures
        i64_value(decimal(n as int)) == Some(n),
{
    let s = decimal(n as int);
    if n < 0 {
        lemma_digits((-n) as nat);
        assert(s.drop_first() =~= digits((-n) as nat));
        assert(unsigned_part(s) == digits((-n) as nat));
    } else {
        lemma_digits(n as nat);
        assert(is_digit_char(s[0]));
        assert(unsigned_part(s) == s);
    }
}

/// Every byte takes two hexadecimal digits.
pub proof fn lemma_hex_len(bytes: Seq<u8>)
    ensures
        hex(bytes).len() == 2 * bytes.len(),
    decreases bytes.len(),
{
    if bytes.len() > 0 {
        lemma_hex_len(bytes.drop_last());
    }
}

/// A number in decimal notation holds no colon.
pub proof fn lemma_decimal_has_no_colon(n: i64)
    ensures
        !decimal(n as int).contains(':'),
{
    let s = decimal(n as int);
    let d = digits(if n < 0 { (-n) as nat } else { n as nat });
    lemma_digits(if n < 0 { (-n) as nat } else { n as nat });
    if s.contains(':') {
        let i = choose|i: int| 0 <= i < s.len() && s[i] == ':';
        if n < 0 {
            assert(i > 0);
            assert(d[i - 1] == s[i]);
        } else {
            assert(d[i] == s[i]);
        }
    }
}

/// A number is written with its own digits and no zero in front, so numbers
/// that differ are written differently.
pub proof fn law_numbers_are_written_without_zeros_in_front(n: nat, m: nat)
    ensures
        digits_value(digits(n)) == n,
        is_digit_run(digits(n)),
        n > 0 ==> digits(n)[0] != '0',
        n < 10 ==> digits(n).len() == 1,
        digits(n) == digits(m) ==> n == m,
{
    lemma_digits(n);
    lemma_digits(m);
    if n > 0 {
        lemma_first_digit(n);
    }
}

proof fn lemma_first_digit(n: nat)
    requires
        n > 0,
    ensures
        digits(n).len() > 0,
        digits(n)[0] != '0',
    decreases n,
{
    if n >= 10 {
        lemma_first_digit(n / 10);
    }
}

/// A text of digits reads as the number it is written as, with either sign or
/// none; a text with anything else in it is no number.
pub proof fn law_signs_are_read(n: nat, s: Seq<char>, i: int)
    ensures
        integer_value(digits(n)) == Some(n as int),
        integer_value(seq!['+'] + digits(n)) == Some(n as int),
        integer_value(seq!['-'] + digits(n)) == Some(-n),
        integer_value(Seq::empty()) is None,
        integer_value(seq!['-']) is None,
        integer_value(seq!['+']) is None,
        1 <= i < s.len() && !('0' <= s[i] <= '9') ==> integer_value(s) is None,
        s.len() > 0 && !('0' <= s[0] <= '9') && s[0] != '-' && s[0] != '+' ==> integer_value(
            s,
        ) is None,
{
    lemma_digits(n);
    assert(is_digit_char(digits(n)[0]));
    assert((seq!['+'] + digits(n)).drop_first() =~= digits(n));
    assert((seq!['-'] + digits(n)).drop_first() =~= digits(n));
    assert(seq!['-'].drop_first().len() == 0);
    assert(seq!['+'].drop_first().len() == 0);
    if 1 <= i < s.len() && !('0' <= s[i] <= '9') {
        if is_signed(s) {
            assert(!is_digit_char(unsigned_part(s)[i - 1]));
        } else {
            assert(!is_digit_char(unsigned_part(s)[i]));
        }
    }
    if s.len() > 0 && !('0' <= s[0] <= '9') && s[0] != '-' && s[0] != '+' {
        assert(!is_digit_char(unsigned_part(s)[0]));
    }
}

/// A number that does not fit 64 bits is none.
pub proof fn law_only_numbers_of_64_bits_are_read(s: Seq<char>)
    ensures
        i64_value(s) is Some <==> (integer_value(s) matches Some(v)
            && -9_223_372_036_854_775_808 <= v <= 9_223_372_036_854_775_807),
        i64_value(s) matches Some(n) ==> integer_value(s) == Some(n as int),
{
}

/// What a hexadecimal digit in lower case stands for.
pub open spec fn hex_value(c: char) -> int {
    if '0' <= c <= '9' {
        c as int - '0' as int
    } else if 'a' <= c <= 'f' {
        10 + (c as int - 'a' as int)
    } else {
        -1
    }
}

/// The two digits of a byte stand at twice its place, the upper half first.
pub proof fn law_bytes_in_hexadecimal(bytes: Seq<u8>, i: int)
    requires
        0 <= i < bytes.len(),
    ensures
        hex(bytes).len() == 2 * bytes.len(),
        hex_value(hex(bytes)[2 * i]) >= 0,
        hex_value(hex(bytes)[2 * i + 1]) >= 0,
        bytes[i] == 16 * hex_value(hex(bytes)[2 * i]) + hex_value(hex(bytes)[2 * i + 1]),
    decreases bytes.len(),
{
    lemma_hex_len(bytes);
    lemma_hex_len(bytes.drop_last());
    if i < bytes.len() - 1 {
        law_bytes_in_hexadecimal(bytes.drop_last(), i);
    }
}

/// Every further digit counts ten times less than the one before it.
pub proof fn law_digits_have_their_places(s: Seq<char>, c: char)
    requires
        '0' <= c <= '9',
    ensures
        digits_value(Seq::empty()) == 0,
        digits_value(s.push(c)) == 10 * digits_value(s) + (c as int - '0' as int),
{
    assert(s.push(c).drop_last() =~= s);
}

} // verus!
