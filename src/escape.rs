//! The escape-sequence unescaper: literal `\n`, `\t`, `\xHH`, `\uHHHH`, octal
//! `\NNN` and friends written out with a backslash become the characters or
//! bytes they stand for.

use vstd::prelude::*;
use vstd::utf8::{is_scalar, char_is_scalar};
use crate::text::chars_of;

verus! {

/// Value of a hexadecimal digit of either case.
pub open spec fn hex_digit_value(c: char) -> Option<u32> {
    let u = c as u32;
    if 0x30 <= u <= 0x39 {
        Some((u - 0x30) as u32)
    } else if 0x61 <= u <= 0x66 {
        Some((u - 0x61 + 10) as u32)
    } else if 0x41 <= u <= 0x46 {
        Some((u - 0x41 + 10) as u32)
    } else {
        None
    }
}

pub open spec fn is_octal_digit(c: char) -> bool {
    0x30 <= c as u32 <= 0x37
}

pub open spec fn octal_digit_value(c: char) -> u32 {
    (c as u32 - 0x30) as u32
}

/// Two hexadecimal digits at `k`.
pub open spec fn hex_pair_at(s: Seq<char>, k: int) -> Option<u32> {
    if 0 <= k && k + 2 <= s.len() {
        match (hex_digit_value(s[k]), hex_digit_value(s[k + 1])) {
            (Some(a), Some(b)) => Some((a * 16 + b) as u32),
            _ => None,
        }
    } else {
        None
    }
}

/// Four hexadecimal digits at `k`.
pub open spec fn hex_quad_at(s: Seq<char>, k: int) -> Option<u32> {
    match (hex_pair_at(s, k), hex_pair_at(s, k + 2)) {
        (Some(a), Some(b)) => Some((a * 256 + b) as u32),
        _ => None,
    }
}

/// A UTF-16 surrogate code point, which names no character.
pub open spec fn is_surrogate(v: u32) -> bool {
    0xD800 <= v <= 0xDFFF
}

/// Three-digit octal form at `k`: taken when the leading digit is 0 to 3 and
/// two more octal digits follow.
pub open spec fn octal_leading_at(s: Seq<char>, k: int) -> Option<u32> {
    if 0 <= k && k + 3 <= s.len() && 0x30 <= s[k] as u32 <= 0x33 && is_octal_digit(s[k + 1])
        && is_octal_digit(s[k + 2]) {
        Some(
            (octal_digit_value(s[k]) * 64 + octal_digit_value(s[k + 1]) * 8 + octal_digit_value(
                s[k + 2],
            )) as u32,
        )
    } else {
        None
    }
}

/// Two-digit octal form at `k`.
pub open spec fn octal_no_leading_at(s: Seq<char>, k: int) -> Option<u32> {
    if 0 <= k && k + 2 <= s.len() && is_octal_digit(s[k]) && is_octal_digit(s[k + 1]) {
        Some((octal_digit_value(s[k]) * 8 + octal_digit_value(s[k + 1])) as u32)
    } else {
        None
    }
}

/// One-digit octal form at `k`.
pub open spec fn octal_single_at(s: Seq<char>, k: int) -> Option<u32> {
    if 0 <= k < s.len() && is_octal_digit(s[k]) {
        Some(octal_digit_value(s[k]))
    } else {
        None
    }
}

/// An octal escape whose first digit is at `k`: its value and the index after
/// it. It takes 1 to 3 digits, as many as form the three-digit or two-digit
/// form, else the one digit.
pub open spec fn octal_at(s: Seq<char>, k: int) -> Option<(u32, int)> {
    match octal_leading_at(s, k) {
        Some(v) => Some((v, k + 3)),
        None => match octal_no_leading_at(s, k) {
            Some(v) => Some((v, k + 2)),
            None => match octal_single_at(s, k) {
                Some(v) => Some((v, k + 1)),
                None => None,
            },
        },
    }
}

/// The code point that the text at `i` stands for (a plain character or a
/// whole escape sequence), with the index just after it; `None` where the
/// escape there is malformed.
pub open spec fn token_at(s: Seq<char>, i: int) -> Option<(u32, int)> {
    if s[i] != '\\' {
        Some((s[i] as u32, i + 1))
    } else if i + 1 >= s.len() {
        None
    } else {
        let e = s[i + 1];
        if e == 'b' {
            Some((8, i + 2))
        } else if e == 'f' {
            Some((12, i + 2))
        } else if e == 'n' {
            Some((10, i + 2))
        } else if e == 'r' {
            Some((13, i + 2))
        } else if e == 't' {
            Some((9, i + 2))
        } else if e == '\'' {
            Some((39, i + 2))
        } else if e == '"' {
            Some((34, i + 2))
        } else if e == '\\' {
            Some((92, i + 2))
        } else if e == 'u' {
            match hex_quad_at(s, i + 2) {
                Some(v) => if is_surrogate(v) {
                    None
                } else {
                    Some((v, i + 6))
                },
                None => None,
            }
        } else if e == 'x' {
            match hex_pair_at(s, i + 2) {
                Some(v) => Some((v, i + 4)),
                None => None,
            }
        } else if is_octal_digit(e) {
            octal_at(s, i + 1)
        } else {
            None
        }
    }
}

/// The code points that `s` from index `i` on unescapes to, or `None` if any
/// escape there is malformed.
pub open spec fn unescaped_codes(s: Seq<char>, i: int) -> Option<Seq<u32>>
    decreases s.len() - i,
{
    if i < 0 || i >= s.len() {
        Some(Seq::empty())
    } else {
        match token_at(s, i) {
            Some((v, j)) => if i < j <= s.len() {
                match unescaped_codes(s, j) {
                    Some(rest) => Some(seq![v] + rest),
                    None => None,
                }
            } else {
                None
            },
            None => None,
        }
    }
}

/// Each code point cut to its low byte.
pub open spec fn low_bytes(codes: Seq<u32>) -> Seq<u8> {
    codes.map_values(|v: u32| v as u8)
}

/// The code points of a character sequence.
pub open spec fn code_points(cs: Seq<char>) -> Seq<u32> {
    cs.map_values(|c: char| c as u32)
}

pub open spec fn prefixed(p: Seq<u32>, o: Option<Seq<u32>>) -> Option<Seq<u32>> {
    match o {
        Some(r) => Some(p + r),
        None => None,
    }
}

proof fn lemma_unescaped_step(s: Seq<char>, i: int, acc: Seq<u32>)
    requires
        0 <= i < s.len(),
    ensures
        match token_at(s, i) {
            Some((v, j)) => if i < j <= s.len() {
                prefixed(acc, unescaped_codes(s, i)) == prefixed(acc.push(v), unescaped_codes(s, j))
            } else {
                unescaped_codes(s, i) is None
            },
            None => unescaped_codes(s, i) is None,
        },
{
    match token_at(s, i) {
        Some((v, j)) => {
            if i < j <= s.len() {
                match unescaped_codes(s, j) {
                    Some(rest) => {
                        assert(acc + (seq![v] + rest) =~= acc.push(v) + rest);
                    },
                    None => {},
                }
            }
        },
        None => {},
    }
}

fn hex_digit(c: char) -> (r: Option<u32>)
    ensures
        r == hex_digit_value(c),
{
    let u = c as u32;
    if 0x30 <= u && u <= 0x39 {
        Some(u - 0x30)
    } else if 0x61 <= u && u <= 0x66 {
        Some(u - 0x61 + 10)
    } else if 0x41 <= u && u <= 0x46 {
        Some(u - 0x41 + 10)
    } else {
        None
    }
}

fn octal_digit(c: char) -> (r: Option<u32>)
    ensures
        is_octal_digit(c) ==> r == Some(octal_digit_value(c)),
        !is_octal_digit(c) ==> r is None,
{
    let u = c as u32;
    if 0x30 <= u && u <= 0x37 {
        Some(u - 0x30)
    } else {
        None
    }
}

fn hex_pair(s: &Vec<char>, k: usize) -> (r: Option<u32>)
    ensures
        r == hex_pair_at(s@, k as int),
        r matches Some(v) ==> v < 256,
{
    if k >= s.len() || s.len() - k < 2 {
        return None;
    }
    match (hex_digit(s[k]), hex_digit(s[k + 1])) {
        (Some(a), Some(b)) => Some(a * 16 + b),
        _ => None,
    }
}

/// The four hexadecimal digits after `\u` at `k`, as a code point that is no
/// surrogate.
fn unescape_unicode(s: &Vec<char>, k: usize) -> (r: Option<u32>)
    requires
        k <= s.len(),
    ensures
        r == (match hex_quad_at(s@, k as int) {
            Some(v) => if is_surrogate(v) {
                None
            } else {
                Some(v)
            },
            None => None,
        }),
{
    let hi = hex_pair(s, k);
    let lo = if s.len() >= 2 && k <= s.len() - 2 {
        hex_pair(s, k + 2)
    } else {
        None
    };
    proof {
        if !(s.len() >= 2 && k <= s.len() - 2) {
            assert(hex_pair_at(s@, k as int) is None);
        }
    }
    match (hi, lo) {
        (Some(a), Some(b)) => {
            let v = a * 256 + b;
            if 0xD800 <= v && v <= 0xDFFF {
                None
            } else {
                Some(v)
            }
        },
        _ => None,
    }
}

/// The two hexadecimal digits after `\x` at `k`.
fn unescape_byte(s: &Vec<char>, k: usize) -> (r: Option<u32>)
    ensures
        r == hex_pair_at(s@, k as int),
{
    hex_pair(s, k)
}

fn unescape_octal_leading(s: &Vec<char>, k: usize) -> (r: Option<u32>)
    ensures
        r == octal_leading_at(s@, k as int),
{
    if k >= s.len() || s.len() - k < 3 {
        return None;
    }
    let first = s[k] as u32;
    if first < 0x30 || first > 0x33 {
        return None;
    }
    match (octal_digit(s[k + 1]), octal_digit(s[k + 2])) {
        (Some(b), Some(c)) => Some((first - 0x30) * 64 + b * 8 + c),
        _ => None,
    }
}

fn unescape_octal_no_leading(s: &Vec<char>, k: usize) -> (r: Option<u32>)
    ensures
        r == octal_no_leading_at(s@, k as int),
{
    if k >= s.len() || s.len() - k < 2 {
        return None;
    }
    match (octal_digit(s[k]), octal_digit(s[k + 1])) {
        (Some(a), Some(b)) => Some(a * 8 + b),
        _ => None,
    }
}

/// The octal escape whose first digit is at `k`, with the index after it.
fn unescape_octal(s: &Vec<char>, k: usize) -> (r: Option<(u32, usize)>)
    requires
        k < s.len(),
    ensures
        match octal_at(s@, k as int) {
            Some((v, j)) => r == Some((v, j as usize)),
            None => r is None,
        },
{
    match unescape_octal_leading(s, k) {
        Some(v) => Some((v, k + 3)),
        None => match unescape_octal_no_leading(s, k) {
            Some(v) => Some((v, k + 2)),
            None => match octal_digit(s[k]) {
                Some(v) => Some((v, k + 1)),
                None => None,
            },
        },
    }
}

/// Reads the plain character or escape sequence at `i`.
fn read_token(s: &Vec<char>, i: usize) -> (r: Option<(u32, usize)>)
    requires
        i < s.len(),
    ensures
        match token_at(s@, i as int) {
            Some((v, j)) => r == Some((v, j as usize)) && i < j <= s.len(),
            None => r is None,
        },
{
    let c = s[i];
    if c != '\\' {
        return Some((c as u32, i + 1));
    }
    if i + 1 >= s.len() {
        return None;
    }
    let e = s[i + 1];
    if e == 'b' {
        Some((8, i + 2))
    } else if e == 'f' {
        Some((12, i + 2))
    } else if e == 'n' {
        Some((10, i + 2))
    } else if e == 'r' {
        Some((13, i + 2))
    } else if e == 't' {
        Some((9, i + 2))
    } else if e == '\'' {
        Some((39, i + 2))
    } else if e == '"' {
        Some((34, i + 2))
    } else if e == '\\' {
        Some((92, i + 2))
    } else if e == 'u' {
        match unescape_unicode(s, i + 2) {
            Some(v) => Some((v, i + 6)),
            None => None,
        }
    } else if e == 'x' {
        match unescape_byte(s, i + 2) {
            Some(v) => Some((v, i + 4)),
            None => None,
        }
    } else if 0x30 <= e as u32 && e as u32 <= 0x37 {
        unescape_octal(s, i + 1)
    } else {
        None
    }
}

/// The code points of `s` with every escape sequence resolved.
fn unescape_codes(s: &str) -> (r: Option<Vec<u32>>)
    ensures
        match unescaped_codes(s@, 0) {
            Some(codes) => r matches Some(v) && v@ == codes,
            None => r is None,
        },
{
    let chars = chars_of(s);
    let mut out: Vec<u32> = Vec::new();
    let mut i: usize = 0;
    while i < chars.len()
        invariant
            chars@ == s@,
            i <= chars.len(),
            unescaped_codes(s@, 0) == prefixed(out@, unescaped_codes(s@, i as int)),
        decreases chars.len() - i,
    {
        proof {
            lemma_unescaped_step(s@, i as int, out@);
        }
        match read_token(&chars, i) {
            Some((v, j)) => {
                out.push(v);
                i = j;
            },
            None => {
                return None;
            },
        }
    }
    proof {
        assert(out@ + Seq::<u32>::empty() =~= out@);
    }
    Some(out)
}

/// Resolves the escape sequences of `s` into bytes: each plain character and
/// each escape gives one byte, the low byte of its code point. `None` on a
/// trailing backslash, an unknown escape, missing or non-hex digits,
/// or a `\u` escape that names a surrogate.
pub fn unescape_as_bytes(s: &str) -> (r: Option<Vec<u8>>)
    ensures
        match unescaped_codes(s@, 0) {
            Some(codes) => r matches Some(b) && b@ == low_bytes(codes),
            None => r is None,
        },
{
    match unescape_codes(s) {
        Some(codes) => {
            let mut out: Vec<u8> = Vec::new();
            let mut i: usize = 0;
            while i < codes.len()
                invariant
                    i <= codes.len(),
                    out@ =~= low_bytes(codes@.take(i as int)),
                decreases codes.len() - i,
            {
                out.push(codes[i] as u8);
                i = i + 1;
                proof {
                    assert(codes@.take(i as int) =~= codes@.take(i - 1).push(codes@[i - 1]));
                }
            }
            proof {
                assert(codes@.take(i as int) =~= codes@);
            }
            Some(out)
        },
        None => None,
    }
}

proof fn lemma_token_is_scalar(s: Seq<char>, i: int)
    requires
        0 <= i < s.len(),
    ensures
        token_at(s, i) matches Some((v, _)) ==> is_scalar(v),
{
    broadcast use char_is_scalar;

    if s[i] != '\\' {
        char_is_scalar(s[i]);
    }
    if let Some(v) = octal_leading_at(s, i + 1) {
        assert(v <= 255);
    }
    if let Some(v) = octal_no_leading_at(s, i + 1) {
        assert(v <= 63);
    }
    if let Some(v) = octal_single_at(s, i + 1) {
        assert(v <= 7);
    }
    assert forall|c: char| (#[trigger] hex_digit_value(c)) is Some implies hex_digit_value(c)->0 < 16 by {}
    if let Some(v) = hex_pair_at(s, i + 2) {
        assert(v < 256);
    }
    if let Some(v) = hex_quad_at(s, i + 2) {
        assert(v <= 0xFFFF);
    }
}

proof fn lemma_codes_are_scalars(s: Seq<char>, i: int)
    ensures
        unescaped_codes(s, i) matches Some(codes) ==> forall|k: int|
            0 <= k < codes.len() ==> is_scalar(#[trigger] codes[k]),
    decreases s.len() - i,
{
    if 0 <= i < s.len() {
        lemma_token_is_scalar(s, i);
        if let Some((v, j)) = token_at(s, i) {
            if i < j <= s.len() {
                lemma_codes_are_scalars(s, j);
                if let Some(rest) = unescaped_codes(s, j) {
                    let codes = seq![v] + rest;
                    assert forall|k: int| 0 <= k < codes.len() implies is_scalar(
                        #[trigger] codes[k],
                    ) by {
                        if k > 0 {
                            assert(codes[k] == rest[k - 1]);
                        }
                    }
                }
            }
        }
    }
}

/// Resolves the escape sequences of `s` into text: each plain character is
/// kept and each escape gives the character of its code point. `None` exactly
/// where `unescape_as_bytes` gives `None`.
pub fn unescape(s: &str) -> (r: Option<String>)
    ensures
        match unescaped_codes(s@, 0) {
            Some(codes) => r matches Some(t) && code_points(t@) == codes,
            None => r is None,
        },
{
    match unescape_codes(s) {
        Some(codes) => {
            proof {
                lemma_codes_are_scalars(s@, 0);
            }
            let mut out = String::new();
            let mut i: usize = 0;
            while i < codes.len()
                invariant
                    i <= codes.len(),
                    forall|k: int| 0 <= k < codes.len() ==> is_scalar(#[trigger] codes@[k]),
                    code_points(out@) =~= codes@.take(i as int),
                decreases codes.len() - i,
            {
                match core::char::from_u32(codes[i]) {
                    Some(c) => out.push(c),
                    None => {
                        assert(false);
                    },
                }
                i = i + 1;
                proof {
                    assert(codes@.take(i as int) =~= codes@.take(i - 1).push(codes@[i - 1]));
                }
            }
            proof {
                assert(codes@.take(i as int) =~= codes@);
            }
            Some(out)
        },
        None => None,
    }
}

} // verus!
