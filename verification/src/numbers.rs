//! Verified rendering and parsing of the integers that appear on the wire:
//! decimal for channels, slot identifiers, volumes and wait durations, and
//! hexadecimal for the frame checksum.

use vstd::prelude::*;
use vstd::string::*;

verus! {

pub open spec fn is_dec_digit(c: char) -> bool {
    c == '0' || c == '1' || c == '2' || c == '3' || c == '4' || c == '5' || c == '6' || c == '7'
        || c == '8' || c == '9'
}

pub open spec fn dec_digit_val(c: char) -> nat {
    if c == '0' {
        0
    } else if c == '1' {
        1
    } else if c == '2' {
        2
    } else if c == '3' {
        3
    } else if c == '4' {
        4
    } else if c == '5' {
        5
    } else if c == '6' {
        6
    } else if c == '7' {
        7
    } else if c == '8' {
        8
    } else {
        9
    }
}

pub open spec fn dec_digit_char(d: nat) -> char {
    if d == 0 {
        '0'
    } else if d == 1 {
        '1'
    } else if d == 2 {
        '2'
    } else if d == 3 {
        '3'
    } else if d == 4 {
        '4'
    } else if d == 5 {
        '5'
    } else if d == 6 {
        '6'
    } else if d == 7 {
        '7'
    } else if d == 8 {
        '8'
    } else {
        '9'
    }
}

pub open spec fn is_hex_digit(c: char) -> bool {
    is_dec_digit(c) || c == 'a' || c == 'b' || c == 'c' || c == 'd' || c == 'e' || c == 'f'
        || c == 'A' || c == 'B' || c == 'C' || c == 'D' || c == 'E' || c == 'F'
}

pub open spec fn hex_digit_val(c: char) -> nat {
    if is_dec_digit(c) {
        dec_digit_val(c)
    } else if c == 'a' || c == 'A' {
        10
    } else if c == 'b' || c == 'B' {
        11
    } else if c == 'c' || c == 'C' {
        12
    } else if c == 'd' || c == 'D' {
        13
    } else if c == 'e' || c == 'E' {
        14
    } else {
        15
    }
}

/// The lowercase character for a hexadecimal digit value.
pub open spec fn hex_digit_char(d: nat) -> char {
    if d < 10 {
        dec_digit_char(d)
    } else if d == 10 {
        'a'
    } else if d == 11 {
        'b'
    } else if d == 12 {
        'c'
    } else if d == 13 {
        'd'
    } else if d == 14 {
        'e'
    } else {
        'f'
    }
}

/// The canonical decimal rendering of `n`: no sign, no leading zero except
/// for zero itself.
pub open spec fn dec_digits(n: nat) -> Seq<char>
    decreases n,
{
    if n < 10 {
        seq![dec_digit_char(n)]
    } else {
        dec_digits(n / 10) + seq![dec_digit_char(n % 10)]
    }
}

/// The canonical lowercase hexadecimal rendering of `n`, without prefix or
/// padding.
pub open spec fn hex_digits(n: nat) -> Seq<char>
    decreases n,
{
    if n < 16 {
        seq![hex_digit_char(n)]
    } else {
        hex_digits(n / 16) + seq![hex_digit_char(n % 16)]
    }
}

pub open spec fn all_dec_digits(s: Seq<char>) -> bool {
    forall|k: int| 0 <= k < s.len() ==> is_dec_digit(s[k])
}

pub open spec fn all_hex_digits(s: Seq<char>) -> bool {
    forall|k: int| 0 <= k < s.len() ==> is_hex_digit(s[k])
}

/// The value of a string of decimal digits.
pub open spec fn dec_value(s: Seq<char>) -> nat
    decreases s.len(),
{
    if s.len() == 0 {
        0
    } else {
        dec_value(s.drop_last()) * 10 + dec_digit_val(s.last())
    }
}

/// The value of a string of hexadecimal digits.
pub open spec fn hex_value(s: Seq<char>) -> nat
    decreases s.len(),
{
    if s.len() == 0 {
        0
    } else {
        hex_value(s.drop_last()) * 16 + hex_digit_val(s.last())
    }
}

/// Rendering a number and reading the digits back yields the number.
pub proof fn lemma_dec_digits_value(n: nat)
    ensures
        dec_value(dec_digits(n)) == n,
        all_dec_digits(dec_digits(n)),
        dec_digits(n).len() >= 1,
    decreases n,
{
    if n < 10 {
        let s = dec_digits(n);
        assert(s.drop_last() =~= Seq::<char>::empty());
        assert(s.last() == dec_digit_char(n));
        assert(dec_digit_val(dec_digit_char(n)) == n);
        assert(dec_value(s) == dec_value(s.drop_last()) * 10 + dec_digit_val(s.last()));
        assert(dec_value(Seq::<char>::empty()) == 0);
    } else {
        lemma_dec_digits_value(n / 10);
        let s = dec_digits(n);
        assert(s.drop_last() =~= dec_digits(n / 10));
        assert(s.last() == dec_digit_char(n % 10));
        assert(n / 10 * 10 + n % 10 == n);
        assert forall|k: int| 0 <= k < s.len() implies is_dec_digit(s[k]) by {
            if k < s.len() - 1 {
                assert(s[k] == dec_digits(n / 10)[k]);
            }
        }
    }
}

pub proof fn lemma_hex_digits_value(n: nat)
    ensures
        hex_value(hex_digits(n)) == n,
        all_hex_digits(hex_digits(n)),
        hex_digits(n).len() >= 1,
    decreases n,
{
    if n < 16 {
        let s = hex_digits(n);
        assert(s.drop_last() =~= Seq::<char>::empty());
        assert(s.last() == hex_digit_char(n));
        assert(hex_digit_val(hex_digit_char(n)) == n);
        assert(hex_value(s) == hex_value(s.drop_last()) * 16 + hex_digit_val(s.last()));
        assert(hex_value(Seq::<char>::empty()) == 0);
    } else {
        lemma_hex_digits_value(n / 16);
        let s = hex_digits(n);
        assert(s.drop_last() =~= hex_digits(n / 16));
        assert(s.last() == hex_digit_char(n % 16));
        assert(n / 16 * 16 + n % 16 == n);
        assert forall|k: int| 0 <= k < s.len() implies is_hex_digit(s[k]) by {
            if k < s.len() - 1 {
                assert(s[k] == hex_digits(n / 16)[k]);
            }
        }
    }
}

/// A digit string is worth at least as much as any of its prefixes.
pub proof fn lemma_dec_value_prefix_le(s: Seq<char>, i: int)
    requires
        0 <= i <= s.len(),
    ensures
        dec_value(s.subrange(0, i)) <= dec_value(s),
    decreases s.len() - i,
{
    if i < s.len() {
        lemma_dec_value_prefix_le(s, i + 1);
        let t = s.subrange(0, i + 1);
        assert(t.drop_last() =~= s.subrange(0, i));
        assert(dec_value(s.subrange(0, i)) <= dec_value(t));
    } else {
        assert(s.subrange(0, i) =~= s);
    }
}

pub proof fn lemma_hex_value_prefix_le(s: Seq<char>, i: int)
    requires
        0 <= i <= s.len(),
    ensures
        hex_value(s.subrange(0, i)) <= hex_value(s),
    decreases s.len() - i,
{
    if i < s.len() {
        lemma_hex_value_prefix_le(s, i + 1);
        let t = s.subrange(0, i + 1);
        assert(t.drop_last() =~= s.subrange(0, i));
        assert(hex_value(s.subrange(0, i)) <= hex_value(t));
    } else {
        assert(s.subrange(0, i) =~= s);
    }
}

fn dec_digit_str(d: u64) -> (r: &'static str)
    requires
        d < 10,
    ensures
        r@ == seq![dec_digit_char(d as nat)],
{
    proof {
        reveal_strlit("0");
        reveal_strlit("1");
        reveal_strlit("2");
        reveal_strlit("3");
        reveal_strlit("4");
        reveal_strlit("5");
        reveal_strlit("6");
        reveal_strlit("7");
        reveal_strlit("8");
        reveal_strlit("9");
    }
    let r: &'static str = if d == 0 {
        "0"
    } else if d == 1 {
        "1"
    } else if d == 2 {
        "2"
    } else if d == 3 {
        "3"
    } else if d == 4 {
        "4"
    } else if d == 5 {
        "5"
    } else if d == 6 {
        "6"
    } else if d == 7 {
        "7"
    } else if d == 8 {
        "8"
    } else {
        "9"
    };
    proof {
        assert(r@ =~= seq![dec_digit_char(d as nat)]);
    }
    r
}

fn hex_digit_str(d: u32) -> (r: &'static str)
    requires
        d < 16,
    ensures
        r@ == seq![hex_digit_char(d as nat)],
{
    if d < 10 {
        dec_digit_str(d as u64)
    } else {
        proof {
            reveal_strlit("a");
            reveal_strlit("b");
            reveal_strlit("c");
            reveal_strlit("d");
            reveal_strlit("e");
            reveal_strlit("f");
        }
        let r: &'static str = if d == 10 {
            "a"
        } else if d == 11 {
            "b"
        } else if d == 12 {
            "c"
        } else if d == 13 {
            "d"
        } else if d == 14 {
            "e"
        } else {
            "f"
        };
        proof {
            assert(r@ =~= seq![hex_digit_char(d as nat)]);
        }
        r
    }
}

/// Renders `n` in decimal.
pub fn u64_to_dec(n: u64) -> (r: String)
    ensures
        r@ == dec_digits(n as nat),
    decreases n,
{
    if n < 10 {
        String::from_str(dec_digit_str(n))
    } else {
        let mut r = u64_to_dec(n / 10);
        r.append(dec_digit_str(n % 10));
        r
    }
}

/// Renders `n` in lowercase hexadecimal without padding.
pub fn u32_to_hex(n: u32) -> (r: String)
    ensures
        r@ == hex_digits(n as nat),
    decreases n,
{
    if n < 16 {
        String::from_str(hex_digit_str(n))
    } else {
        let mut r = u32_to_hex(n / 16);
        r.append(hex_digit_str(n % 16));
        r
    }
}

/// The decimal rendering of a signed 8-bit channel number.
pub open spec fn dec_i8(n: i8) -> Seq<char> {
    if n < 0 {
        seq!['-'] + dec_digits((0 - n as int) as nat)
    } else {
        dec_digits(n as nat)
    }
}

/// Renders a signed 8-bit number in decimal.
pub fn i8_to_dec(n: i8) -> (r: String)
    ensures
        r@ == dec_i8(n),
{
    if n < 0 {
        let m: i64 = n as i64;
        let mag: u64 = (-m) as u64;
        let mut r = String::from_str("-");
        let digits = u64_to_dec(mag);
        r.append(digits.as_str());
        proof {
            reveal_strlit("-");
            assert(r@ =~= seq!['-'] + dec_digits(mag as nat));
        }
        r
    } else {
        u64_to_dec(n as u64)
    }
}

fn dec_digit_of(c: char) -> (r: Option<u64>)
    ensures
        match r {
            Some(d) => is_dec_digit(c) && d == dec_digit_val(c) && d < 10,
            None => !is_dec_digit(c),
        },
{
    if c == '0' {
        Some(0)
    } else if c == '1' {
        Some(1)
    } else if c == '2' {
        Some(2)
    } else if c == '3' {
        Some(3)
    } else if c == '4' {
        Some(4)
    } else if c == '5' {
        Some(5)
    } else if c == '6' {
        Some(6)
    } else if c == '7' {
        Some(7)
    } else if c == '8' {
        Some(8)
    } else if c == '9' {
        Some(9)
    } else {
        None
    }
}

fn hex_digit_of(c: char) -> (r: Option<u32>)
    ensures
        match r {
            Some(d) => is_hex_digit(c) && d == hex_digit_val(c) && d < 16,
            None => !is_hex_digit(c),
        },
{
    match dec_digit_of(c) {
        Some(d) => Some(d as u32),
        None => {
            if c == 'a' || c == 'A' {
                Some(10)
            } else if c == 'b' || c == 'B' {
                Some(11)
            } else if c == 'c' || c == 'C' {
                Some(12)
            } else if c == 'd' || c == 'D' {
                Some(13)
            } else if c == 'e' || c == 'E' {
                Some(14)
            } else if c == 'f' || c == 'F' {
                Some(15)
            } else {
                None
            }
        },
    }
}

/// What an unsigned 64-bit decimal parse accepts: an optional leading plus
/// sign, then one or more decimal digits whose value fits.
pub open spec fn spec_parse_u64(s: Seq<char>) -> Option<u64> {
    let digits = if s.len() > 0 && s[0] == '+' {
        s.drop_first()
    } else {
        s
    };
    if digits.len() > 0 && all_dec_digits(digits) && dec_value(digits) <= u64::MAX {
        Some(dec_value(digits) as u64)
    } else {
        None
    }
}

/// Parses the digits `s@.subrange(start, s@.len())` as an unsigned 64-bit
/// decimal number.
fn parse_dec_digits(s: &str, start: usize) -> (r: Option<u64>)
    requires
        start <= s@.len(),
    ensures
        ({
            let digits = s@.subrange(start as int, s@.len() as int);
            match r {
                Some(v) => digits.len() > 0 && all_dec_digits(digits) && dec_value(digits) == v,
                None => digits.len() == 0 || !all_dec_digits(digits) || dec_value(digits)
                    > u64::MAX,
            }
        }),
{
    let n = s.unicode_len();
    let ghost digits = s@.subrange(start as int, s@.len() as int);
    if start == n {
        return None;
    }
    let mut val: u64 = 0;
    let mut i: usize = start;
    while i < n
        invariant
            start <= i <= n,
            n == s@.len(),
            digits == s@.subrange(start as int, s@.len() as int),
            all_dec_digits(digits.subrange(0, i - start)),
            val == dec_value(digits.subrange(0, i - start)),
        decreases n - i,
    {
        let c = s.get_char(i);
        proof {
            assert(digits[i - start] == s@[i as int]);
        }
        match dec_digit_of(c) {
            None => {
                proof {
                    assert(!is_dec_digit(digits[i - start]));
                }
                return None;
            },
            Some(d) => {
                let ghost pre = digits.subrange(0, i - start);
                let ghost ext = digits.subrange(0, i - start + 1);
                proof {
                    assert(ext.drop_last() =~= pre);
                    assert(ext.last() == digits[i - start]);
                }
                if val > (u64::MAX - d) / 10 {
                    proof {
                        assert(dec_value(ext) == val * 10 + d);
                        assert(val * 10 + d > u64::MAX) by {
                            assert(val >= (u64::MAX - d) / 10 + 1);
                            assert(((u64::MAX - d) / 10 + 1) * 10 == (u64::MAX - d) / 10 * 10
                                + 10);
                            assert((u64::MAX - d) / 10 * 10 + (u64::MAX - d) % 10 == u64::MAX
                                - d);
                            assert(val * 10 >= ((u64::MAX - d) / 10 + 1) * 10) by (nonlinear_arith)
                                requires
                                    val >= (u64::MAX - d) / 10 + 1,
                            ;
                        }
                        lemma_dec_value_prefix_le(digits, i - start + 1);
                        assert(dec_value(digits) > u64::MAX);
                    }
                    return None;
                }
                proof {
                    assert(val * 10 + d <= u64::MAX) by {
                        assert(val <= (u64::MAX - d) / 10);
                        assert(val * 10 <= (u64::MAX - d) / 10 * 10) by (nonlinear_arith)
                            requires
                                val <= (u64::MAX - d) / 10,
                        ;
                        assert((u64::MAX - d) / 10 * 10 <= u64::MAX - d);
                    }
                }
                val = val * 10 + d;
            },
        }
        i = i + 1;
    }
    proof {
        assert(digits.subrange(0, n - start) =~= digits);
    }
    Some(val)
}

/// Parses an unsigned 64-bit decimal number, as slot identifiers, volumes
/// and wait durations are written.
pub fn parse_u64(s: &str) -> (r: Option<u64>)
    ensures
        r == spec_parse_u64(s@),
{
    let n = s.unicode_len();
    let start: usize = if n > 0 && s.get_char(0) == '+' {
        1
    } else {
        0
    };
    let r = parse_dec_digits(s, start);
    proof {
        if start == 1 {
            assert(s@.subrange(1, s@.len() as int) =~= s@.drop_first());
        } else {
            assert(s@.subrange(0, s@.len() as int) =~= s@);
        }
    }
    r
}

/// What a signed 8-bit decimal parse accepts: an optional sign, then one or
/// more decimal digits whose value is in range.
pub open spec fn spec_parse_i8(s: Seq<char>) -> Option<i8> {
    if s.len() > 0 && s[0] == '-' {
        let digits = s.drop_first();
        if digits.len() > 0 && all_dec_digits(digits) && dec_value(digits) <= 128 {
            Some((0 - dec_value(digits)) as i8)
        } else {
            None
        }
    } else {
        let digits = if s.len() > 0 && s[0] == '+' {
            s.drop_first()
        } else {
            s
        };
        if digits.len() > 0 && all_dec_digits(digits) && dec_value(digits) <= 127 {
            Some(dec_value(digits) as i8)
        } else {
            None
        }
    }
}

/// Parses a signed 8-bit decimal number, as the frame's channel is written.
pub fn parse_i8(s: &str) -> (r: Option<i8>)
    ensures
        r == spec_parse_i8(s@),
{
    let n = s.unicode_len();
    let negative = n > 0 && s.get_char(0) == '-';
    let start: usize = if n > 0 && (s.get_char(0) == '-' || s.get_char(0) == '+') {
        1
    } else {
        0
    };
    proof {
        if start == 1 {
            assert(s@.subrange(1, s@.len() as int) =~= s@.drop_first());
        } else {
            assert(s@.subrange(0, s@.len() as int) =~= s@);
        }
    }
    match parse_dec_digits(s, start) {
        None => None,
        Some(v) => {
            if negative {
                if v <= 128 {
                    Some((-(v as i64)) as i8)
                } else {
                    None
                }
            } else {
                if v <= 127 {
                    Some(v as i8)
                } else {
                    None
                }
            }
        },
    }
}

/// What an unsigned 32-bit hexadecimal parse accepts: an optional leading
/// plus sign, then one or more hexadecimal digits whose value fits, either
/// case, no radix prefix.
pub open spec fn spec_parse_hex_u32(s: Seq<char>) -> Option<u32> {
    let digits = if s.len() > 0 && s[0] == '+' {
        s.drop_first()
    } else {
        s
    };
    if digits.len() > 0 && all_hex_digits(digits) && hex_value(digits) <= u32::MAX {
        Some(hex_value(digits) as u32)
    } else {
        None
    }
}

/// Parses the digits `s@.subrange(start, s@.len())` as an unsigned 32-bit
/// hexadecimal number.
fn parse_hex_digits(s: &str, start: usize) -> (r: Option<u32>)
    requires
        start <= s@.len(),
    ensures
        ({
            let digits = s@.subrange(start as int, s@.len() as int);
            match r {
                Some(v) => digits.len() > 0 && all_hex_digits(digits) && hex_value(digits) == v,
                None => digits.len() == 0 || !all_hex_digits(digits) || hex_value(digits)
                    > u32::MAX,
            }
        }),
{
    let n = s.unicode_len();
    let ghost digits = s@.subrange(start as int, s@.len() as int);
    if start == n {
        return None;
    }
    let mut val: u32 = 0;
    let mut i: usize = start;
    while i < n
        invariant
            start <= i <= n,
            n == s@.len(),
            digits == s@.subrange(start as int, s@.len() as int),
            all_hex_digits(digits.subrange(0, i - start)),
            val == hex_value(digits.subrange(0, i - start)),
        decreases n - i,
    {
        let c = s.get_char(i);
        proof {
            assert(digits[i - start] == s@[i as int]);
        }
        match hex_digit_of(c) {
            None => {
                proof {
                    assert(!is_hex_digit(digits[i - start]));
                }
                return None;
            },
            Some(d) => {
                let ghost pre = digits.subrange(0, i - start);
                let ghost ext = digits.subrange(0, i - start + 1);
                proof {
                    assert(ext.drop_last() =~= pre);
                    assert(ext.last() == digits[i - start]);
                }
                if val > (u32::MAX - d) / 16 {
                    proof {
                        assert(hex_value(ext) == val * 16 + d);
                        assert(val * 16 + d > u32::MAX) by {
                            assert(val >= (u32::MAX - d) / 16 + 1);
                            assert((u32::MAX - d) / 16 * 16 + (u32::MAX - d) % 16 == u32::MAX
                                - d);
                            assert(val * 16 >= ((u32::MAX - d) / 16 + 1) * 16) by (nonlinear_arith)
                                requires
                                    val >= (u32::MAX - d) / 16 + 1,
                            ;
                        }
                        lemma_hex_value_prefix_le(digits, i - start + 1);
                        assert(hex_value(digits) > u32::MAX);
                    }
                    return None;
                }
                proof {
                    assert(val * 16 + d <= u32::MAX) by {
                        assert(val <= (u32::MAX - d) / 16);
                        assert(val * 16 <= (u32::MAX - d) / 16 * 16) by (nonlinear_arith)
                            requires
                                val <= (u32::MAX - d) / 16,
                        ;
                        assert((u32::MAX - d) / 16 * 16 <= u32::MAX - d);
                    }
                }
                val = val * 16 + d;
            },
        }
        i = i + 1;
    }
    proof {
        assert(digits.subrange(0, n - start) =~= digits);
    }
    Some(val)
}

/// Parses an unsigned 32-bit hexadecimal number, as the frame checksum is
/// written.
pub fn parse_hex_u32(s: &str) -> (r: Option<u32>)
    ensures
        r == spec_parse_hex_u32(s@),
{
    let n = s.unicode_len();
    let start: usize = if n > 0 && s.get_char(0) == '+' {
        1
    } else {
        0
    };
    let r = parse_hex_digits(s, start);
    proof {
        if start == 1 {
            assert(s@.subrange(1, s@.len() as int) =~= s@.drop_first());
        } else {
            assert(s@.subrange(0, s@.len() as int) =~= s@);
        }
    }
    r
}

/// Reading back a rendered unsigned 64-bit number yields the number.
pub proof fn lemma_parse_u64_round_trip(n: u64)
    ensures
        spec_parse_u64(dec_digits(n as nat)) == Some(n),
{
    lemma_dec_digits_value(n as nat);
    let s = dec_digits(n as nat);
    assert(is_dec_digit(s[0]));
    assert(s[0] != '+');
}

/// Reading back a rendered channel number yields the number.
pub proof fn lemma_parse_i8_round_trip(n: i8)
    ensures
        spec_parse_i8(dec_i8(n)) == Some(n),
{
    if n < 0 {
        let mag = (0 - n as int) as nat;
        lemma_dec_digits_value(mag);
        let s = dec_i8(n);
        assert(s[0] == '-');
        assert(s.drop_first() =~= dec_digits(mag));
    } else {
        lemma_dec_digits_value(n as nat);
        let s = dec_i8(n);
        assert(is_dec_digit(s[0]));
        assert(s[0] != '+');
        assert(s[0] != '-');
    }
}

/// Reading back a rendered checksum yields the checksum.
pub proof fn lemma_parse_hex_u32_round_trip(n: u32)
    ensures
        spec_parse_hex_u32(hex_digits(n as nat)) == Some(n),
{
    lemma_hex_digits_value(n as nat);
    let s = hex_digits(n as nat);
    assert(is_hex_digit(s[0]));
    assert(s[0] != '+');
}

/// No digit, sign, or hexadecimal letter is a comma, so rendered numbers
/// never disturb the frame's field separators.
pub proof fn lemma_digits_have_no_comma(n: nat, c: u32, ch: i8)
    ensures
        forall|k: int| 0 <= k < dec_digits(n).len() ==> dec_digits(n)[k] != ',',
        forall|k: int| 0 <= k < hex_digits(c as nat).len() ==> hex_digits(c as nat)[k] != ',',
        forall|k: int| 0 <= k < dec_i8(ch).len() ==> dec_i8(ch)[k] != ',',
{
    lemma_dec_digits_value(n);
    lemma_hex_digits_value(c as nat);
    assert forall|k: int| 0 <= k < dec_digits(n).len() implies dec_digits(n)[k] != ',' by {
        assert(is_dec_digit(dec_digits(n)[k]));
    }
    assert forall|k: int| 0 <= k < hex_digits(c as nat).len() implies hex_digits(c as nat)[k]
        != ',' by {
        assert(is_hex_digit(hex_digits(c as nat)[k]));
    }
    if ch < 0 {
        let mag = (0 - ch as int) as nat;
        lemma_dec_digits_value(mag);
        assert forall|k: int| 0 <= k < dec_i8(ch).len() implies dec_i8(ch)[k] != ',' by {
            if k > 0 {
                assert(dec_i8(ch)[k] == dec_digits(mag)[k - 1]);
                assert(is_dec_digit(dec_digits(mag)[k - 1]));
            }
        }
    } else {
        lemma_dec_digits_value(ch as nat);
        assert forall|k: int| 0 <= k < dec_i8(ch).len() implies dec_i8(ch)[k] != ',' by {
            assert(is_dec_digit(dec_digits(ch as nat)[k]));
        }
    }
}

} // verus!
