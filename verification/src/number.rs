//! Integer parsing and formatting with the semantics of the standard library.
//!
//! `parse_*` follow `str::parse` for the integer types (an optional `+`, and
//! for signed types an optional `-`, then at least one ASCII digit), and
//! `parse_hex_*` follow `from_str_radix(_, 16)`.
use vstd::prelude::*;
use crate::text::{push_char, string_of};

verus! {

/// An ASCII decimal digit.
pub open spec fn is_digit(c: char) -> bool {
    '0' <= c && c <= '9'
}

/// An ASCII hexadecimal digit of either case.
pub open spec fn is_hex_digit(c: char) -> bool {
    is_digit(c) || ('a' <= c && c <= 'f') || ('A' <= c && c <= 'F')
}

/// The value of a hexadecimal digit.
pub open spec fn hex_digit_value(c: char) -> nat {
    if is_digit(c) {
        (c as int - '0' as int) as nat
    } else if 'a' <= c && c <= 'f' {
        (c as int - 'a' as int + 10) as nat
    } else {
        (c as int - 'A' as int + 10) as nat
    }
}

/// Every character is a decimal digit.
pub open spec fn all_digits(s: Seq<char>) -> bool {
    forall|i: int| 0 <= i < s.len() ==> is_digit(#[trigger] s[i])
}

/// Every character is a hexadecimal digit.
pub open spec fn all_hex_digits(s: Seq<char>) -> bool {
    forall|i: int| 0 <= i < s.len() ==> is_hex_digit(#[trigger] s[i])
}

/// The number written by a sequence of digits in the given radix.
pub open spec fn digits_value(s: Seq<char>, radix: nat) -> nat
    decreases s.len(),
{
    if s.len() == 0 {
        0
    } else {
        digits_value(s.drop_last(), radix) * radix + hex_digit_value(s.last())
    }
}

/// The digits after an optional leading `+`.
pub open spec fn unsigned_body(s: Seq<char>) -> Seq<char> {
    if s.len() > 0 && s[0] == '+' {
        s.drop_first()
    } else {
        s
    }
}

/// A nonempty run of decimal digits whose value is at most `max`.
pub open spec fn bounded_decimal(s: Seq<char>, max: int) -> Option<int> {
    if s.len() > 0 && all_digits(s) && digits_value(s, 10) <= max {
        Some(digits_value(s, 10) as int)
    } else {
        None
    }
}

/// A nonempty run of hexadecimal digits whose value is at most `max`.
pub open spec fn bounded_hex(s: Seq<char>, max: int) -> Option<int> {
    if s.len() > 0 && all_hex_digits(s) && digits_value(s, 16) <= max {
        Some(digits_value(s, 16) as int)
    } else {
        None
    }
}

/// `str::parse` for an unsigned integer type whose maximum is `max`.
pub open spec fn spec_parse_unsigned(s: Seq<char>, max: int) -> Option<int> {
    bounded_decimal(unsigned_body(s), max)
}

/// `str::parse` for a signed integer type with bounds `min` and `max`.
pub open spec fn spec_parse_signed(s: Seq<char>, min: int, max: int) -> Option<int> {
    if s.len() > 0 && s[0] == '-' {
        match bounded_decimal(s.drop_first(), -min) {
            Some(v) => Some(-v),
            None => None,
        }
    } else {
        spec_parse_unsigned(s, max)
    }
}

/// `from_str_radix(_, 16)` for an unsigned integer type whose maximum is `max`.
pub open spec fn spec_parse_hex(s: Seq<char>, max: int) -> Option<int> {
    bounded_hex(unsigned_body(s), max)
}

/// `str::parse::<u64>`.
pub open spec fn spec_parse_u64(s: Seq<char>) -> Option<u64> {
    match spec_parse_unsigned(s, u64::MAX as int) {
        Some(v) => Some(v as u64),
        None => None,
    }
}

/// `str::parse::<u32>`.
pub open spec fn spec_parse_u32(s: Seq<char>) -> Option<u32> {
    match spec_parse_unsigned(s, u32::MAX as int) {
        Some(v) => Some(v as u32),
        None => None,
    }
}

/// `str::parse::<i64>`.
pub open spec fn spec_parse_i64(s: Seq<char>) -> Option<i64> {
    match spec_parse_signed(s, i64::MIN as int, i64::MAX as int) {
        Some(v) => Some(v as i64),
        None => None,
    }
}

/// `str::parse::<i32>`.
pub open spec fn spec_parse_i32(s: Seq<char>) -> Option<i32> {
    match spec_parse_signed(s, i32::MIN as int, i32::MAX as int) {
        Some(v) => Some(v as i32),
        None => None,
    }
}

/// `u32::from_str_radix(_, 16)`.
pub open spec fn spec_parse_hex_u32(s: Seq<char>) -> Option<u32> {
    match spec_parse_hex(s, u32::MAX as int) {
        Some(v) => Some(v as u32),
        None => None,
    }
}

/// `u64::from_str_radix(_, 16)`.
pub open spec fn spec_parse_hex_u64(s: Seq<char>) -> Option<u64> {
    match spec_parse_hex(s, u64::MAX as int) {
        Some(v) => Some(v as u64),
        None => None,
    }
}

proof fn lemma_digits_value_prefix(s: Seq<char>, radix: nat, k: int)
    requires
        0 <= k <= s.len(),
        radix >= 1,
    ensures
        digits_value(s.take(k), radix) <= digits_value(s, radix),
    decreases s.len(),
{
    if k < s.len() {
        assert(s.drop_last().take(k) =~= s.take(k));
        lemma_digits_value_prefix(s.drop_last(), radix, k);
        let a = digits_value(s.drop_last(), radix);
        assert(a <= a * radix) by (nonlinear_arith)
            requires
                radix >= 1,
        ;
    } else {
        assert(s.take(k) =~= s);
    }
}

/// The value of a nonempty run of digits in radix 10 or 16, or `None` when a
/// character is not a digit of that radix or the value exceeds `u64::MAX`.
fn digits_u64(s: &[char], hex: bool) -> (r: Option<u64>)
    ensures
        r == (if hex {
            match bounded_hex(s@, u64::MAX as int) {
                Some(v) => Some(v as u64),
                None => None,
            }
        } else {
            match bounded_decimal(s@, u64::MAX as int) {
                Some(v) => Some(v as u64),
                None => None,
            }
        }),
{
    let radix: u64 = if hex { 16 } else { 10 };
    if s.len() == 0 {
        return None;
    }
    let mut acc: u64 = 0;
    let mut i: usize = 0;
    while i < s.len()
        invariant
            0 <= i <= s.len(),
            radix == (if hex { 16u64 } else { 10u64 }),
            acc == digits_value(s@.take(i as int), radix as nat),
            forall|j: int|
                0 <= j < i ==> (if hex {
                    is_hex_digit(#[trigger] s@[j])
                } else {
                    is_digit(s@[j])
                }),
        decreases s.len() - i,
    {
        let c = s[i];
        let ok = if hex {
            ('0' <= c && c <= '9') || ('a' <= c && c <= 'f') || ('A' <= c && c <= 'F')
        } else {
            '0' <= c && c <= '9'
        };
        if !ok {
            assert(!(if hex { all_hex_digits(s@) } else { all_digits(s@) }));
            return None;
        }
        let d: u64 = if '0' <= c && c <= '9' {
            (c as u32 - '0' as u32) as u64
        } else if 'a' <= c && c <= 'f' {
            (c as u32 - 'a' as u32 + 10) as u64
        } else {
            (c as u32 - 'A' as u32 + 10) as u64
        };
        assert(d == hex_digit_value(c));
        assert(s@.take(i + 1).drop_last() =~= s@.take(i as int));
        assert(digits_value(s@.take(i + 1), radix as nat) == acc * radix + d);
        let limit: u64 = (u64::MAX - d) / radix;
        if acc > limit {
            proof {
                assert(acc * radix + d > u64::MAX) by (nonlinear_arith)
                    requires
                        acc > limit,
                        limit as int == (u64::MAX as int - d as int) / (radix as int),
                        radix >= 10,
                        d < radix,
                ;
                lemma_digits_value_prefix(s@, radix as nat, i + 1);
            }
            return None;
        }
        assert(acc * radix + d <= u64::MAX) by (nonlinear_arith)
            requires
                acc <= limit,
                limit as int == (u64::MAX as int - d as int) / (radix as int),
                radix >= 10,
                d < radix,
        ;
        acc = acc * radix + d;
        i = i + 1;
    }
    assert(s@.take(s.len() as int) =~= s@);
    Some(acc)
}

/// Strips one leading `+`.
fn unsigned_digits(s: &[char]) -> (r: &[char])
    ensures
        r@ == unsigned_body(s@),
{
    if s.len() > 0 && s[0] == '+' {
        &s[1..s.len()]
    } else {
        s
    }
}

/// `str::parse::<u64>`.
pub fn parse_u64(s: &[char]) -> (r: Option<u64>)
    ensures
        r == spec_parse_u64(s@),
{
    digits_u64(unsigned_digits(s), false)
}

/// `str::parse::<u32>`.
pub fn parse_u32(s: &[char]) -> (r: Option<u32>)
    ensures
        r == spec_parse_u32(s@),
{
    match digits_u64(unsigned_digits(s), false) {
        Some(v) => if v <= u32::MAX as u64 {
            Some(v as u32)
        } else {
            None
        },
        None => {
            proof {
                let b = unsigned_body(s@);
                if b.len() > 0 && all_digits(b) {
                    assert(digits_value(b, 10) > u64::MAX);
                }
            }
            None
        },
    }
}

/// `u64::from_str_radix(_, 16)`.
pub fn parse_hex_u64(s: &[char]) -> (r: Option<u64>)
    ensures
        r == spec_parse_hex_u64(s@),
{
    digits_u64(unsigned_digits(s), true)
}

/// `u32::from_str_radix(_, 16)`.
pub fn parse_hex_u32(s: &[char]) -> (r: Option<u32>)
    ensures
        r == spec_parse_hex_u32(s@),
{
    match digits_u64(unsigned_digits(s), true) {
        Some(v) => if v <= u32::MAX as u64 {
            Some(v as u32)
        } else {
            None
        },
        None => None,
    }
}

/// `str::parse::<i64>`.
pub fn parse_i64(s: &[char]) -> (r: Option<i64>)
    ensures
        r == spec_parse_i64(s@),
{
    if s.len() > 0 && s[0] == '-' {
        match digits_u64(&s[1..s.len()], false) {
            Some(v) => {
                if v <= 0x8000_0000_0000_0000u64 {
                    if v == 0x8000_0000_0000_0000u64 {
                        Some(i64::MIN)
                    } else {
                        Some(-(v as i64))
                    }
                } else {
                    None
                }
            },
            None => None,
        }
    } else {
        match digits_u64(unsigned_digits(s), false) {
            Some(v) => if v <= i64::MAX as u64 {
                Some(v as i64)
            } else {
                None
            },
            None => None,
        }
    }
}

/// `str::parse::<i32>`.
pub fn parse_i32(s: &[char]) -> (r: Option<i32>)
    ensures
        r == spec_parse_i32(s@),
{
    if s.len() > 0 && s[0] == '-' {
        match digits_u64(&s[1..s.len()], false) {
            Some(v) => {
                if v <= 0x8000_0000u64 {
                    Some(-(v as i64) as i32)
                } else {
                    None
                }
            },
            None => None,
        }
    } else {
        match digits_u64(unsigned_digits(s), false) {
            Some(v) => if v <= i32::MAX as u64 {
                Some(v as i32)
            } else {
                None
            },
            None => None,
        }
    }
}

/// The decimal digit character for `d`.
pub open spec fn digit_char(d: nat) -> char {
    ('0' as int + d) as char
}

/// The decimal representation of `n` (as `u64`'s `Display` writes it).
pub open spec fn decimal_chars(n: nat) -> Seq<char>
    decreases n,
{
    if n < 10 {
        seq![digit_char(n)]
    } else {
        decimal_chars(n / 10).push(digit_char(n % 10))
    }
}

fn push_decimal(s: &mut String, n: u64)
    ensures
        final(s)@ == old(s)@ + decimal_chars(n as nat),
    decreases n,
{
    if n >= 10 {
        push_decimal(s, n / 10);
    }
    let d = n % 10;
    let c: char = if d == 0 {
        '0'
    } else if d == 1 {
        '1'
    } else if d == 2 {
        '2'
    } else if d == 3 {
        '3'
    } else if d == 4 {
        '4'
    } else if d == 5 {
        '5'
    } else if d == 6 {
        '6'
    } else if d == 7 {
        '7'
    } else if d == 8 {
        '8'
    } else {
        '9'
    };
    assert(c == digit_char(d as nat));
    push_char(s, c);
    proof {
        if n >= 10 {
            assert(old(s)@ + decimal_chars(n as nat) =~= old(s)@ + decimal_chars((n / 10) as nat)
                + seq![c]);
        } else {
            assert(old(s)@ + decimal_chars(n as nat) =~= old(s)@ + seq![c]);
        }
    }
}

/// The decimal representation of `n`.
pub fn decimal_string(n: u64) -> (s: String)
    ensures
        s@ == decimal_chars(n as nat),
{
    let mut s = string_of(&[]);
    push_decimal(&mut s, n);
    assert(s@ =~= decimal_chars(n as nat));
    s
}

/// The decimal representation of a signed `n` (as `Display` writes it).
pub open spec fn signed_decimal_chars(n: int) -> Seq<char> {
    if n < 0 {
        seq!['-'] + decimal_chars((-n) as nat)
    } else {
        decimal_chars(n as nat)
    }
}

/// The decimal representation of a signed `n`.
pub fn signed_decimal_string(n: i64) -> (s: String)
    ensures
        s@ == signed_decimal_chars(n as int),
{
    if n < 0 {
        let magnitude: u64 = if n == i64::MIN {
            9223372036854775808u64
        } else {
            (-n) as u64
        };
        let mut s = string_of(&['-']);
        push_decimal(&mut s, magnitude);
        assert(s@ =~= signed_decimal_chars(n as int));
        s
    } else {
        decimal_string(n as u64)
    }
}

/// The decimal text of a number is a non-empty run of digits whose value
/// is the number.
proof fn lemma_decimal_chars_value(n: nat)
    ensures
        decimal_chars(n).len() > 0,
        all_digits(decimal_chars(n)),
        digits_value(decimal_chars(n), 10) == n,
    decreases n,
{
    let d = n % 10;
    assert(digit_char(d) as int == '0' as int + d);
    assert(is_digit(digit_char(d)));
    assert(hex_digit_value(digit_char(d)) == d);
    if n < 10 {
        assert(decimal_chars(n).drop_last() =~= Seq::<char>::empty());
        assert(d == n);
        assert(digits_value(Seq::<char>::empty(), 10) == 0);
        assert(digits_value(decimal_chars(n), 10) == digits_value(decimal_chars(n).drop_last(), 10) * 10
            + hex_digit_value(decimal_chars(n).last()));
    }
    if n >= 10 {
        lemma_decimal_chars_value(n / 10);
        assert(n == (n / 10) * 10 + d);
        let p = decimal_chars(n / 10);
        let s = decimal_chars(n);
        assert(s.drop_last() =~= p);
        assert(s.last() == digit_char(n % 10));
        assert(digits_value(s, 10) == digits_value(p, 10) * 10 + hex_digit_value(s.last()));
        assert forall|i: int| 0 <= i < s.len() implies is_digit(#[trigger] s[i]) by {
            if i < p.len() {
                assert(s[i] == p[i]);
            }
        }
    }
}

/// Reading back the decimal text of a number gives the number: parsing
/// what `Display` writes for `n` as an unsigned value of maximum `max` gives
/// `n` whenever `n` fits, and as a signed value likewise for negative `n`.
pub proof fn lemma_decimal_reads_back(n: int, min: int, max: int)
    requires
        min <= 0 <= max,
        min <= n <= max,
    ensures
        n >= 0 ==> spec_parse_unsigned(decimal_chars(n as nat), max) == Some(n),
        spec_parse_signed(signed_decimal_chars(n), min, max) == Some(n),
{
    if n >= 0 {
        lemma_decimal_chars_value(n as nat);
        let s = decimal_chars(n as nat);
        assert(is_digit(s[0]));
        assert(unsigned_body(s) == s);
        assert(s[0] != '-');
    } else {
        lemma_decimal_chars_value((-n) as nat);
        let s = decimal_chars((-n) as nat);
        let t = seq!['-'] + s;
        assert(t.drop_first() =~= s);
        assert(t[0] == '-');
    }
}

} // verus!
