//! Fixed-width hexadecimal rendering and parsing of 64-bit identifiers.

use vstd::arithmetic::div_mod::{lemma_div_denominator, lemma_mod_breakdown};
use vstd::prelude::*;
use vstd::string::StrSliceExecFns;

verus! {

/// Sixteen to the power `n`.
pub open spec fn pow16(n: nat) -> int
    decreases n,
{
    if n == 0 {
        1
    } else {
        16 * pow16((n - 1) as nat)
    }
}

/// The lowercase hexadecimal digit that stands for `n`, for `0 <= n < 16`.
pub open spec fn hex_digit(n: int) -> char {
    if n < 10 {
        ((48 + n) as u8) as char
    } else {
        ((87 + n) as u8) as char
    }
}

/// Whether `c` is one of `0`-`9` or `a`-`f`.
pub open spec fn is_lower_hex(c: char) -> bool {
    ('0' <= c && c <= '9') || ('a' <= c && c <= 'f')
}

/// The value of a hexadecimal digit of either case, or `None` for any other
/// character.
pub open spec fn hex_value(c: char) -> Option<int> {
    if '0' <= c && c <= '9' {
        Some(c as int - 48)
    } else if 'a' <= c && c <= 'f' {
        Some(c as int - 87)
    } else if 'A' <= c && c <= 'F' {
        Some(c as int - 55)
    } else {
        None
    }
}

/// The `width` low-order hexadecimal digits of `i`, most significant first.
pub open spec fn hex_of(i: int, width: nat) -> Seq<char>
    decreases width,
{
    if width == 0 {
        Seq::empty()
    } else {
        hex_of(i / 16, (width - 1) as nat).push(hex_digit(i % 16))
    }
}

/// The rendering of an identifier: sixteen lowercase hexadecimal digits,
/// padded with zeros on the left.
pub open spec fn hex16(i: u64) -> Seq<char> {
    hex_of(i as int, 16)
}

/// Whether every character of `s` is a hexadecimal digit of either case.
pub open spec fn all_hex(s: Seq<char>) -> bool {
    forall|k: int| 0 <= k < s.len() ==> (#[trigger] hex_value(s[k])) is Some
}

/// The number that the digits of `s` denote in base sixteen.
pub open spec fn hex_fold(s: Seq<char>) -> int
    decreases s.len(),
{
    if s.len() == 0 {
        0
    } else {
        hex_fold(s.drop_last()) * 16 + hex_value(s.last()).unwrap_or(0)
    }
}

/// What a header value denotes: one to sixteen hexadecimal digits give the
/// number they spell, anything else gives nothing.
pub open spec fn parse_hex(s: Seq<char>) -> Option<u64> {
    if 1 <= s.len() <= 16 && all_hex(s) {
        Some(hex_fold(s) as u64)
    } else {
        None
    }
}

/// Each power of sixteen is sixteen times the one before, and none is zero.
proof fn lemma_pow16_step(n: nat)
    ensures
        pow16(n + 1) == 16 * pow16(n),
        pow16(n) >= 1,
    decreases n,
{
    if n > 0 {
        lemma_pow16_step((n - 1) as nat);
    }
}

/// The powers of sixteen at the ends of the 64-bit range.
proof fn lemma_pow16_values()
    ensures
        pow16(0) == 1,
        pow16(15) == 0x1000_0000_0000_0000,
        pow16(16) == 0x1_0000_0000_0000_0000,
{
    reveal_with_fuel(pow16, 17);
}

/// The powers of sixteen grow with the exponent.
proof fn lemma_pow16_monotonic(a: nat, b: nat)
    requires
        a <= b,
    ensures
        pow16(a) <= pow16(b),
    decreases b,
{
    if a < b {
        lemma_pow16_monotonic(a, (b - 1) as nat);
        lemma_pow16_step((b - 1) as nat);
    }
}

/// A rendering of any width has that many characters, each a lowercase
/// hexadecimal digit.
proof fn lemma_hex_of_shape(i: int, width: nat)
    ensures
        hex_of(i, width).len() == width,
        forall|k: int| 0 <= k < width ==> is_lower_hex(#[trigger] hex_of(i, width)[k]),
        all_hex(hex_of(i, width)),
    decreases width,
{
    if width > 0 {
        lemma_hex_of_shape(i / 16, (width - 1) as nat);
        let d = i % 16;
        assert(is_lower_hex(hex_digit(d)));
        assert(hex_value(hex_digit(d)) is Some);
    }
}

/// Reading back the `width` low-order digits of `i` gives `i` modulo
/// sixteen to the `width`.
proof fn lemma_hex_fold_of(i: int, width: nat)
    requires
        0 <= i,
    ensures
        hex_fold(hex_of(i, width)) == i % pow16(width),
    decreases width,
{
    if width > 0 {
        let rest = hex_of(i / 16, (width - 1) as nat);
        let d = i % 16;
        lemma_hex_fold_of(i / 16, (width - 1) as nat);
        lemma_pow16_step((width - 1) as nat);
        assert(hex_of(i, width).drop_last() =~= rest);
        assert(hex_of(i, width).last() == hex_digit(d));
        assert(hex_value(hex_digit(d)) == Some(d));
        lemma_mod_breakdown(i, 16, pow16((width - 1) as nat));
    }
}

/// Every identifier renders as exactly sixteen characters, each one of
/// `0`-`9` or `a`-`f`.
pub proof fn lemma_hex16_shape(i: u64)
    ensures
        hex16(i).len() == 16,
        forall|k: int| 0 <= k < 16 ==> is_lower_hex(#[trigger] hex16(i)[k]),
{
    lemma_hex_of_shape(i as int, 16);
}

/// Parsing the rendering of an identifier gives the identifier back.
pub proof fn lemma_parse_hex16(i: u64)
    ensures
        parse_hex(hex16(i)) == Some(i),
{
    lemma_hex_of_shape(i as int, 16);
    lemma_hex_fold_of(i as int, 16);
    lemma_pow16_values();
}

/// Two identifiers with the same rendering are the same identifier.
pub proof fn lemma_hex16_injective(a: u64, b: u64)
    requires
        hex16(a) == hex16(b),
    ensures
        a == b,
{
    lemma_parse_hex16(a);
    lemma_parse_hex16(b);
}

/// The digit for a value below sixteen.
fn hex_char(n: u8) -> (c: char)
    requires
        n < 16,
    ensures
        c == hex_digit(n as int),
        is_lower_hex(c),
        hex_value(c) == Some(n as int),
{
    if n < 10 {
        (48u8 + n) as char
    } else {
        (87u8 + n) as char
    }
}

/// `String::push` appends one character to the end of the string.
pub assume_specification[ String::push ](s: &mut String, c: char)
    ensures
        final(s)@ == old(s)@.push(c),
;

/// Renders an identifier as sixteen lowercase hexadecimal digits.
pub fn u64_hex(i: u64) -> (s: String)
    ensures
        s@ == hex16(i),
        s@.len() == 16,
        forall|k: int| 0 <= k < 16 ==> is_lower_hex(#[trigger] s@[k]),
{
    proof {
        lemma_hex16_shape(i);
    }
    let mut s = String::new();
    let mut div: u64 = 0x1000_0000_0000_0000;
    let mut k: usize = 0;
    proof {
        lemma_pow16_values();
    }
    while k < 16
        invariant
            k <= 16,
            k < 16 ==> div as int == pow16((15 - k) as nat),
            s@ == hex_of(i as int / pow16((16 - k) as nat), k as nat),
        decreases 16 - k,
    {
        proof {
            lemma_pow16_step((15 - k) as nat);
        }
        let top: u64 = i / div;
        let n: u8 = (top % 16) as u8;
        let c = hex_char(n);
        proof {
            let low = pow16((15 - k) as nat);
            lemma_div_denominator(i as int, low, 16);
            assert(low * 16 == pow16((16 - k) as nat));
            assert((i as int / low) / 16 == i as int / pow16((16 - k) as nat));
            if k < 15 {
                lemma_pow16_step((14 - k) as nat);
            }
        }
        s.push(c);
        div = div / 16;
        k = k + 1;
    }
    s
}

/// The value of one hexadecimal digit of either case.
fn hex_digit_value(c: char) -> (v: Option<u8>)
    ensures
        v is Some <==> hex_value(c) is Some,
        v matches Some(d) ==> hex_value(c) == Some(d as int) && d < 16,
{
    if '0' <= c && c <= '9' {
        Some((c as u32 - 48) as u8)
    } else if 'a' <= c && c <= 'f' {
        Some((c as u32 - 87) as u8)
    } else if 'A' <= c && c <= 'F' {
        Some((c as u32 - 55) as u8)
    } else {
        None
    }
}

/// Parses one to sixteen hexadecimal digits of either case as a 64-bit
/// number. A sign, a blank, an empty string or more than sixteen digits give
/// `None`.
pub fn parse_hex_u64(s: &str) -> (r: Option<u64>)
    ensures
        r == parse_hex(s@),
{
    let n: usize = s.unicode_len();
    if n == 0 || n > 16 {
        return None;
    }
    let mut acc: u64 = 0;
    let mut k: usize = 0;
    while k < n
        invariant
            k <= n <= 16,
            n == s@.len(),
            all_hex(s@.take(k as int)),
            acc as int == hex_fold(s@.take(k as int)),
            (acc as int) < pow16(k as nat),
        decreases n - k,
    {
        let c = s.get_char(k);
        let ghost next = s@.take(k + 1);
        proof {
            assert(next.drop_last() =~= s@.take(k as int));
            assert(next.last() == c);
            lemma_pow16_values();
            lemma_pow16_step(k as nat);
            lemma_pow16_monotonic((k + 1) as nat, 16);
        }
        match hex_digit_value(c) {
            None => {
                proof {
                    assert(s@[k as int] == c);
                    assert(!all_hex(s@));
                }
                return None;
            },
            Some(d) => {
                acc = acc * 16 + d as u64;
            },
        }
        proof {
            assert forall|j: int| 0 <= j < next.len() implies (#[trigger] hex_value(
                next[j],
            )) is Some by {
                if j < k {
                    assert(next[j] == s@.take(k as int)[j]);
                }
            }
        }
        k = k + 1;
    }
    proof {
        assert(s@.take(n as int) =~= s@);
    }
    Some(acc)
}

/// Reads a header value as a hexadecimal 64-bit number; a missing header and
/// a value that is not one to sixteen hexadecimal digits both give `None`.
pub fn read_header_as_u64(value: Option<&str>) -> (r: Option<u64>)
    ensures
        r == match value {
            Some(v) => parse_hex(v@),
            None => None,
        },
{
    match value {
        Some(v) => parse_hex_u64(v),
        None => None,
    }
}

} // verus!
