//! Header and payload decoding built on the scanner, the unescaper and the
//! transcoder: normalization of folded headers, line-by-line header decoding,
//! quoted-printable and Base64 bodies, and the auto-detecting dispatcher.

use vstd::prelude::*;
use vstd::string::*;
use crate::charset::{attempt_decode, decoded_text};
use crate::escape::{unescape_as_bytes, unescaped_codes, low_bytes};
use crate::mime::{
    manual_decode_mime_subject, decoded_words, ParsingError, base64_decoded,
    quoted_printable_decoded, decode_base64, decode_quoted_printable_bytes,
};
use crate::text::{chars_of, string_of, slice_chars, trim_start, trim_start_spec, to_ascii_lower, ascii_lower};

verus! {

/// The charset that unescaped header lines are decoded under.
pub const DEFAULT_CHARSET: &'static str = "utf-8";

/// `pat` stands in `s` at `i`.
pub open spec fn occurs_at(s: Seq<char>, i: int, pat: Seq<char>) -> bool {
    0 <= i && i + pat.len() <= s.len() && s.subrange(i, i + pat.len()) == pat
}

pub open spec fn contains(s: Seq<char>, pat: Seq<char>) -> bool {
    exists|i: int| occurs_at(s, i, pat)
}

/// `s` with each occurrence of `pat` replaced by `rep`, left to right, the
/// occurrences not overlapping.
pub open spec fn replaced(s: Seq<char>, pat: Seq<char>, rep: Seq<char>) -> Seq<char>
    decreases s.len(),
{
    if s.len() == 0 || pat.len() == 0 {
        s
    } else if occurs_at(s, 0, pat) {
        rep + replaced(s.skip(pat.len() as int), pat, rep)
    } else {
        seq![s[0]] + replaced(s.skip(1), pat, rep)
    }
}

fn occurs(s: &Vec<char>, i: usize, pat: &Vec<char>) -> (r: bool)
    ensures
        r == occurs_at(s@, i as int, pat@),
{
    if i > s.len() || s.len() - i < pat.len() {
        return false;
    }
    let mut k: usize = 0;
    while k < pat.len()
        invariant
            i + pat.len() <= s.len(),
            k <= pat.len(),
            s@.subrange(i as int, i + k) == pat@.take(k as int),
        decreases pat.len() - k,
    {
        if s[i + k] != pat[k] {
            assert(s@.subrange(i as int, i + pat.len())[k as int] != pat@[k as int]);
            return false;
        }
        k = k + 1;
        assert(s@.subrange(i as int, i + k) =~= pat@.take(k as int));
    }
    assert(pat@.take(k as int) =~= pat@);
    true
}

/// Whether `pat` occurs in `s`.
pub fn contains_chars(s: &Vec<char>, pat: &Vec<char>) -> (r: bool)
    ensures
        r == contains(s@, pat@),
{
    let mut i: usize = 0;
    loop
        invariant
            i <= s.len(),
            forall|j: int| 0 <= j < i ==> !occurs_at(s@, j, pat@),
        decreases s.len() - i,
    {
        if occurs(s, i, pat) {
            return true;
        }
        if i == s.len() {
            assert forall|j: int| !occurs_at(s@, j, pat@) by {
                if 0 <= j < i {
                }
            }
            return false;
        }
        i = i + 1;
    }
}

/// `s` with each occurrence of `pat` replaced by `rep`.
pub fn replace_chars(s: &Vec<char>, pat: &str, rep: &str) -> (r: Vec<char>)
    requires
        pat@.len() > 0,
    ensures
        r@ == replaced(s@, pat@, rep@),
{
    let p = chars_of(pat);
    let q = chars_of(rep);
    let mut out: Vec<char> = Vec::new();
    let mut i: usize = 0;
    assert(s@.skip(0) =~= s@);
    assert(out@ + replaced(s@, pat@, rep@) =~= replaced(s@, pat@, rep@));
    while i < s.len()
        invariant
            p@ == pat@,
            q@ == rep@,
            p@.len() > 0,
            i <= s.len(),
            replaced(s@, pat@, rep@) == out@ + replaced(s@.skip(i as int), pat@, rep@),
        decreases s.len() - i,
    {
        let rest = Ghost(s@.skip(i as int));
        if occurs(s, i, &p) {
            proof {
                assert(rest@.subrange(0, p@.len() as int) =~= s@.subrange(i as int, i + p@.len()));
                assert(rest@.skip(p@.len() as int) =~= s@.skip(i + p@.len()));
                assert(out@ + (q@ + replaced(rest@.skip(p@.len() as int), pat@, rep@)) =~= (out@
                    + q@) + replaced(rest@.skip(p@.len() as int), pat@, rep@));
            }
            let mut k: usize = 0;
            let ghost out0 = out@;
            while k < q.len()
                invariant
                    k <= q.len(),
                    out@ =~= out0 + q@.take(k as int),
                decreases q.len() - k,
            {
                out.push(q[k]);
                k = k + 1;
                assert(q@.take(k as int) =~= q@.take(k - 1).push(q@[k - 1]));
            }
            assert(q@.take(k as int) =~= q@);
            i = i + p.len();
        } else {
            proof {
                if p@.len() <= rest@.len() {
                    assert(rest@.subrange(0, p@.len() as int) =~= s@.subrange(
                        i as int,
                        i + p@.len(),
                    ));
                }
                assert(rest@.skip(1) =~= s@.skip(i + 1));
                assert(out@ + (seq![s@[i as int]] + replaced(rest@.skip(1), pat@, rep@)) =~= out@.push(
                    s@[i as int],
                ) + replaced(rest@.skip(1), pat@, rep@));
            }
            out.push(s[i]);
            i = i + 1;
        }
    }
    proof {
        assert(s@.skip(i as int).len() == 0);
        assert(out@ + s@.skip(i as int) =~= out@);
    }
    out
}

/// The text with literal `\\`, `\n`, `\r`, `\t` and `\=` resolved, and a line
/// break put before each ` =?` and after each `?= `, so that the encoded
/// words of a folded header stand on lines of their own.
pub open spec fn normalized(s: Seq<char>) -> Seq<char> {
    let s1 = replaced(s, "\\\\"@, "\\"@);
    let s2 = replaced(s1, "\\n"@, "\n"@);
    let s3 = replaced(s2, "\\r"@, "\r"@);
    let s4 = replaced(s3, "\\t"@, "\t"@);
    let s5 = replaced(s4, "\\="@, "="@);
    let s6 = replaced(s5, " =?"@, " \r\n=?"@);
    replaced(s6, "?= "@, "?=\r\n "@)
}

fn normalize_chars(s: &Vec<char>) -> (r: Vec<char>)
    ensures
        r@ == normalized(s@),
{
    proof {
        reveal_strlit("\\\\");
        reveal_strlit("\\n");
        reveal_strlit("\\r");
        reveal_strlit("\\t");
        reveal_strlit("\\=");
        reveal_strlit(" =?");
        reveal_strlit("?= ");
    }
    let s1 = replace_chars(s, "\\\\", "\\");
    let s2 = replace_chars(&s1, "\\n", "\n");
    let s3 = replace_chars(&s2, "\\r", "\r");
    let s4 = replace_chars(&s3, "\\t", "\t");
    let s5 = replace_chars(&s4, "\\=", "=");
    let s6 = replace_chars(&s5, " =?", " \r\n=?");
    replace_chars(&s6, "?= ", "?=\r\n ")
}

pub fn normalize_str(string: &str) -> (r: String)
    ensures
        r@ == normalized(string@),
{
    let chars = chars_of(string);
    string_of(&normalize_chars(&chars))
}

/// `line` without the `\r` of a `\r\n` ending.
pub open spec fn strip_cr(line: Seq<char>) -> Seq<char> {
    if line.len() > 0 && line.last() == '\r' {
        line.drop_last()
    } else {
        line
    }
}

/// The lines of `s[start..]` as std's `str::lines` gives them, reading on
/// from `i`: split after each `\n`, a `\r` before the `\n` dropped, and no
/// empty line after a final `\n`.
pub open spec fn lines_from(s: Seq<char>, start: int, i: int) -> Seq<Seq<char>>
    decreases s.len() - i,
{
    if i >= s.len() {
        if 0 <= start < s.len() {
            seq![s.subrange(start, s.len() as int)]
        } else {
            Seq::empty()
        }
    } else if s[i] == '\n' {
        seq![strip_cr(s.subrange(start, i))] + lines_from(s, i + 1, i + 1)
    } else {
        lines_from(s, start, i + 1)
    }
}

pub open spec fn lines_of(s: Seq<char>) -> Seq<Seq<char>> {
    lines_from(s, 0, 0)
}

/// A line made of one encoded-word run.
pub open spec fn is_encoded_word_line(t: Seq<char>) -> bool {
    t.len() >= 2 && t[0] == '=' && t[1] == '?' && t[t.len() - 2] == '?' && t[t.len() - 1] == '='
}

/// A line that still holds `\x` or `\u` escapes.
pub open spec fn has_escape_marker(t: Seq<char>) -> bool {
    contains(t, "\\x"@) || contains(t, "\\u"@)
}

/// What one line of a header decodes to: its encoded words decoded; else its
/// escapes resolved and decoded as UTF-8; else the line itself. Leading white
/// space is dropped.
pub open spec fn decoded_line(line: Seq<char>) -> Result<Seq<char>, ParsingError> {
    let t = trim_start_spec(line);
    if is_encoded_word_line(t) {
        decoded_words(t)
    } else if has_escape_marker(t) {
        match unescaped_codes(t, 0) {
            Some(codes) => Ok(decoded_text(low_bytes(codes), "utf-8"@)),
            None => Err(ParsingError::Unescaping),
        }
    } else {
        Ok(t)
    }
}

/// The decoded lines joined, or the error of the first line that fails.
pub open spec fn decoded_lines(ls: Seq<Seq<char>>) -> Result<Seq<char>, ParsingError>
    decreases ls.len(),
{
    if ls.len() == 0 {
        Ok(Seq::empty())
    } else {
        match decoded_line(ls[0]) {
            Ok(a) => match decoded_lines(ls.drop_first()) {
                Ok(b) => Ok(a + b),
                Err(e) => Err(e),
            },
            Err(e) => Err(e),
        }
    }
}

pub open spec fn decoded_header(s: Seq<char>) -> Result<Seq<char>, ParsingError> {
    decoded_lines(lines_of(s))
}

/// The lines of `s`, as `lines_of` gives them.
fn split_lines(s: &Vec<char>) -> (r: Vec<Vec<char>>)
    ensures
        r.len() == lines_of(s@).len(),
        forall|k: int| 0 <= k < r.len() ==> (#[trigger] r[k])@ == lines_of(s@)[k],
{
    let mut r: Vec<Vec<char>> = Vec::new();
    let mut start: usize = 0;
    let mut i: usize = 0;
    while i < s.len()
        invariant
            start <= i <= s.len(),
            lines_of(s@) == r@.map_values(|v: Vec<char>| v@) + lines_from(s@, start as int, i as int),
        decreases s.len() - i,
    {
        if s[i] == '\n' {
            let mut line = slice_chars(s, start, i);
            if line.len() > 0 && line[line.len() - 1] == '\r' {
                line.pop();
            }
            proof {
                assert(line@ == strip_cr(s@.subrange(start as int, i as int)));
            }
            let ghost before = r@.map_values(|v: Vec<char>| v@);
            r.push(line);
            proof {
                assert(r@.map_values(|v: Vec<char>| v@) =~= before.push(line@));
                assert(before + (seq![line@] + lines_from(s@, i + 1, i + 1)) =~= before.push(line@)
                    + lines_from(s@, i + 1, i + 1));
            }
            i = i + 1;
            start = i;
        } else {
            i = i + 1;
        }
    }
    if start < s.len() {
        let line = slice_chars(s, start, s.len());
        let ghost before = r@.map_values(|v: Vec<char>| v@);
        r.push(line);
        proof {
            assert(r@.map_values(|v: Vec<char>| v@) =~= before + seq![line@]);
        }
    } else {
        proof {
            assert(r@.map_values(|v: Vec<char>| v@) + Seq::<Seq<char>>::empty() =~= r@.map_values(
                |v: Vec<char>| v@,
            ));
        }
    }
    assert forall|k: int| 0 <= k < r.len() implies (#[trigger] r[k])@ == lines_of(s@)[k] by {
        assert(r@.map_values(|v: Vec<char>| v@)[k] == r@[k]@);
    }
    r
}

pub open spec fn prefixed_text(p: Seq<char>, o: Result<Seq<char>, ParsingError>) -> Result<Seq<char>, ParsingError> {
    match o {
        Ok(t) => Ok(p + t),
        Err(e) => Err(e),
    }
}

fn decode_line(line: &Vec<char>, alt_encoding: &str) -> (r: Result<String, ParsingError>)
    ensures
        match decoded_line(line@) {
            Ok(t) => r matches Ok(s) && s@ == t,
            Err(e) => r == Err::<String, ParsingError>(e),
        },
{
    let t = trim_start(line);
    let n = t.len();
    let ts = string_of(&t);
    if n >= 2 && t[0] == '=' && t[1] == '?' && t[n - 2] == '?' && t[n - 1] == '=' {
        manual_decode_mime_subject(ts.as_str(), alt_encoding)
    } else {
        proof {
            reveal_strlit("\\x");
            reveal_strlit("\\u");
        }
        let x = chars_of("\\x");
        let u = chars_of("\\u");
        if contains_chars(&t, &x) || contains_chars(&t, &u) {
            match unescape_as_bytes(ts.as_str()) {
                Some(bytes) => Ok(attempt_decode(bytes.as_slice(), DEFAULT_CHARSET, alt_encoding)),
                None => Err(ParsingError::Unescaping),
            }
        } else {
            Ok(ts)
        }
    }
}

/// Decodes a header line by line (see `decoded_line`), joining the results.
pub fn decode_mime_header(src: &str, alt_encoding: &str) -> (r: Result<String, ParsingError>)
    ensures
        match decoded_header(src@) {
            Ok(t) => r matches Ok(s) && s@ == t,
            Err(e) => r == Err::<String, ParsingError>(e),
        },
{
    let chars = chars_of(src);
    let lines = split_lines(&chars);
    let ghost ls = lines_of(src@);
    let mut result = String::new();
    let mut k: usize = 0;
    proof {
        assert(ls.skip(0) =~= ls);
        match decoded_lines(ls) {
            Ok(t) => {
                assert(result@ + t =~= t);
            },
            Err(_) => {},
        }
    }
    while k < lines.len()
        invariant
            chars@ == src@,
            ls == lines_of(src@),
            lines.len() == ls.len(),
            forall|j: int| 0 <= j < lines.len() ==> (#[trigger] lines[j])@ == ls[j],
            k <= lines.len(),
            decoded_lines(ls) == prefixed_text(result@, decoded_lines(ls.skip(k as int))),
        decreases lines.len() - k,
    {
        proof {
            assert(ls.skip(k as int).drop_first() =~= ls.skip(k + 1));
            assert(ls.skip(k as int)[0] == ls[k as int]);
        }
        match decode_line(&lines[k], alt_encoding) {
            Ok(text) => {
                let ghost before = result@;
                result.append(text.as_str());
                proof {
                    match decoded_lines(ls.skip(k + 1)) {
                        Ok(b) => {
                            assert(before + (text@ + b) =~= result@ + b);
                        },
                        Err(_) => {},
                    }
                }
            },
            Err(e) => {
                return Err(e);
            },
        }
        k = k + 1;
    }
    proof {
        assert(ls.skip(k as int).len() == 0);
        assert(result@ + Seq::<char>::empty() =~= result@);
    }
    Ok(result)
}

/// A quoted-printable body decoded and then decoded under `charset`; the
/// body itself where it is no valid quoted-printable.
pub open spec fn decoded_quoted_printable(src: Seq<char>, charset: Seq<char>) -> Seq<char> {
    match quoted_printable_decoded(src) {
        Some(b) => decoded_text(b, charset),
        None => src,
    }
}

pub fn decode_quoted_printable(src: &str, charset: &str, alt_encoding: &str) -> (r: String)
    ensures
        r@ == decoded_quoted_printable(src@, charset@),
{
    match decode_quoted_printable_bytes(src) {
        Ok(v) => attempt_decode(v.as_slice(), charset, alt_encoding),
        Err(_) => src.to_owned(),
    }
}

/// A Base64 body decoded and then decoded under `charset`.
pub fn decode_base64_charset(src: &str, charset: &str, alt_encoding: &str) -> (r: Result<String, ParsingError>)
    ensures
        match base64_decoded(src@) {
            Some(b) => r matches Ok(s) && s@ == decoded_text(b, charset@),
            None => r == Err::<String, ParsingError>(ParsingError::DecodingBase64),
        },
{
    match decode_base64(src) {
        Ok(v) => Ok(attempt_decode(v.as_slice(), charset, alt_encoding)),
        Err(_) => Err(ParsingError::DecodingBase64),
    }
}

/// An escaped body with its escapes resolved to bytes, decoded under
/// `charset`.
pub fn unescape_charset(src: &str, charset: &str, alt_encoding: &str) -> (r: Result<String, ParsingError>)
    ensures
        match unescaped_codes(src@, 0) {
            Some(codes) => r matches Ok(s) && s@ == decoded_text(low_bytes(codes), charset@),
            None => r == Err::<String, ParsingError>(ParsingError::Unescaping),
        },
{
    match unescape_as_bytes(src) {
        Some(bytes) => Ok(attempt_decode(bytes.as_slice(), charset, alt_encoding)),
        None => Err(ParsingError::Unescaping),
    }
}

/// The normalized text holds an encoded-word marker `?Q?` or `?B?`, in
/// either case.
pub open spec fn has_encoded_word_marker(s: Seq<char>) -> bool {
    contains(ascii_lower(s), "?q?"@) || contains(ascii_lower(s), "?b?"@)
}

/// What the dispatcher gives: the normalized text is decoded as a header
/// where it holds an encoded-word marker; else it is unescaped and decoded
/// under `charset` where it holds `\x` or `\u`; else the text as given is
/// decoded as quoted-printable.
pub open spec fn auto_decoded(src: Seq<char>, charset: Seq<char>) -> Result<Seq<char>, ParsingError> {
    let n = normalized(src);
    if has_encoded_word_marker(n) {
        decoded_header(n)
    } else if has_escape_marker(n) {
        match unescaped_codes(n, 0) {
            Some(codes) => Ok(decoded_text(low_bytes(codes), charset)),
            None => Err(ParsingError::Unescaping),
        }
    } else {
        Ok(decoded_quoted_printable(src, charset))
    }
}

pub fn auto_decode(src: &str, charset: &str, alt_encoding: &str) -> (r: Result<String, ParsingError>)
    ensures
        match auto_decoded(src@, charset@) {
            Ok(t) => r matches Ok(s) && s@ == t,
            Err(e) => r == Err::<String, ParsingError>(e),
        },
{
    let chars = chars_of(src);
    let n = normalize_chars(&chars);
    let lower = to_ascii_lower(&n);
    proof {
        reveal_strlit("?q?");
        reveal_strlit("?b?");
        reveal_strlit("\\x");
        reveal_strlit("\\u");
    }
    let q = chars_of("?q?");
    let b = chars_of("?b?");
    let ns = string_of(&n);
    if contains_chars(&lower, &q) || contains_chars(&lower, &b) {
        decode_mime_header(ns.as_str(), alt_encoding)
    } else {
        let x = chars_of("\\x");
        let u = chars_of("\\u");
        if contains_chars(&n, &x) || contains_chars(&n, &u) {
            unescape_charset(ns.as_str(), charset, alt_encoding)
        } else {
            Ok(decode_quoted_printable(src, charset, alt_encoding))
        }
    }
}

/// Text that holds an encoded-word marker goes to the header decoder, even
/// where it also holds `\x` or `\u` escapes: the order of the checks is fixed.
pub proof fn lemma_auto_decode_prefers_encoded_words(src: Seq<char>, charset: Seq<char>)
    requires
        has_encoded_word_marker(normalized(src)),
    ensures
        auto_decoded(src, charset) == decoded_header(normalized(src)),
{
}

/// The value of the header that `raw` starts with, as mailparse reads it.
pub uninterp spec fn header_value(raw: Seq<u8>) -> Option<Seq<char>>;

#[verifier::external_type_specification]
#[verifier::external_body]
pub struct ExMailParseError(mailparse::MailParseError);

/// Relies on `mailparse::parse_header` and `MailHeader::get_value`: the
/// decoded value of the header that `raw` starts with; the result depends on
/// the bytes alone, and parsing fails only on empty input or a leading space.
#[verifier::external_body]
fn parse_header_value(raw: &[u8]) -> (r: Result<String, mailparse::MailParseError>)
    ensures
        r is Ok <==> (raw@.len() > 0 && raw@[0] != 0x20),
        r is Ok <==> header_value(raw@) is Some,
        r matches Ok(s) ==> s@ == header_value(raw@)->0,
{
    mailparse::parse_header(raw).map(|(header, _)| header.get_value())
}

/// A raw header that does not parse.
#[derive(Clone, Copy, Debug, PartialEq, Eq, Structural)]
pub struct HeaderParseError;

/// The decoded value of a raw RFC 822 header line (`Name: value`); fails
/// only on empty input or a leading space.
pub fn decode_mime_header_rfc822(raw: &[u8]) -> (r: Result<String, HeaderParseError>)
    ensures
        r is Ok <==> (raw@.len() > 0 && raw@[0] != 0x20),
        match header_value(raw@) {
            Some(v) => r matches Ok(s) && s@ == v,
            None => r is Err,
        },
{
    match parse_header_value(raw) {
        Ok(v) => Ok(v),
        Err(_) => Err(HeaderParseError),
    }
}

} // verus!
