//! The charset transcoder: a table of charset labels (with their alias
//! spellings) resolved to a codec of the `encoding` crate or to UTF-8, and the
//! three-tier fallback decoder built on it.

use vstd::prelude::*;
use vstd::utf8::{valid_utf8, decode_utf8};
use crate::text::{chars_of, trim, trim_spec, trim_start_spec, trim_end_spec, to_ascii_lower, ascii_lower, chars_equal_str};

verus! {

/// What to do with a unit that the charset cannot decode.
#[derive(Clone, Copy, Debug, PartialEq, Eq, Structural)]
pub enum DecoderTrap {
    /// Fail on the first invalid unit.
    Strict,
    /// Put U+FFFD in place of each invalid unit.
    Replace,
}

pub const DEFAULT_DECODER_TRAP: DecoderTrap = DecoderTrap::Replace;

/// A charset that a label names: UTF-8, or a codec of the `encoding` crate
/// given by its position in `encoding::all::encodings()`.
#[derive(Clone, Copy, Debug, PartialEq, Eq, Structural)]
pub enum Charset {
    Utf8,
    Codec(usize),
}

/// A strict decode met a unit that its charset cannot decode.
#[derive(Clone, Copy, Debug, PartialEq, Eq, Structural)]
pub struct CharsetDecodeError;

pub type UTF8String = String;

pub type DecodingResult = Result<UTF8String, CharsetDecodeError>;

// Positions in `encoding::all::encodings()`.
pub const ISO_8859_1: usize = 3;
pub const ISO_8859_2: usize = 4;
pub const ISO_8859_3: usize = 5;
pub const ISO_8859_4: usize = 6;
pub const ISO_8859_5: usize = 7;
pub const ISO_8859_6: usize = 8;
pub const ISO_8859_7: usize = 9;
pub const ISO_8859_8: usize = 10;
pub const ISO_8859_10: usize = 11;
pub const ISO_8859_13: usize = 12;
pub const ISO_8859_14: usize = 13;
pub const ISO_8859_15: usize = 14;
pub const ISO_8859_16: usize = 15;
pub const IBM866: usize = 2;
pub const KOI8_R: usize = 16;
pub const KOI8_U: usize = 17;
pub const MAC_ROMAN: usize = 18;
pub const WINDOWS_874: usize = 19;
pub const WINDOWS_1250: usize = 20;
pub const WINDOWS_1251: usize = 21;
pub const WINDOWS_1252: usize = 22;
pub const WINDOWS_1253: usize = 23;
pub const WINDOWS_1254: usize = 24;
pub const WINDOWS_1255: usize = 25;
pub const WINDOWS_1256: usize = 26;
pub const WINDOWS_1257: usize = 27;
pub const WINDOWS_1258: usize = 28;
pub const MAC_CYRILLIC: usize = 29;
pub const ASCII: usize = 1;
pub const BIG5_2003: usize = 40;
pub const EUC_JP: usize = 34;
pub const GB18030: usize = 38;
pub const GBK: usize = 37;
pub const HZ: usize = 39;
pub const ISO_2022_JP: usize = 36;
pub const UTF_16BE: usize = 32;
pub const UTF_16LE: usize = 31;
pub const WINDOWS_31J: usize = 35;
pub const WINDOWS_949: usize = 33;

/// The table uses the positions below this one; the codecs after them
/// (whatwg's x-user-defined, iso-8859-8-i and replacement) it does not use.
pub const TABLE_CODECS: usize = 41;

/// The charset that a normalized (trimmed, lower-cased) label names.
pub open spec fn charset_of_label(l: Seq<char>) -> Option<Charset> {
    if l == "utf8"@ || l == "utf-8"@ {
        Some(Charset::Utf8)
    } else if l == "iso-8859-1"@ || l == "iso88591"@ || l == "iso-ir-100"@ || l == "isoir100"@
        || l == "csisolatin1"@ || l == "latin1"@ || l == "latin-1"@ || l == "l1"@
        || l == "ibm819"@ || l == "ibm-819"@ || l == "cp819"@ || l == "cp-819"@ {
        Some(Charset::Codec(ISO_8859_1))
    } else if l == "iso-8859-2"@ || l == "iso88592"@ {
        Some(Charset::Codec(ISO_8859_2))
    } else if l == "iso-8859-3"@ || l == "iso88593"@ {
        Some(Charset::Codec(ISO_8859_3))
    } else if l == "iso-8859-4"@ || l == "iso88594"@ {
        Some(Charset::Codec(ISO_8859_4))
    } else if l == "iso-8859-5"@ || l == "iso88595"@ {
        Some(Charset::Codec(ISO_8859_5))
    } else if l == "iso-8859-6"@ || l == "iso88596"@ {
        Some(Charset::Codec(ISO_8859_6))
    } else if l == "iso-8859-7"@ || l == "iso88597"@ {
        Some(Charset::Codec(ISO_8859_7))
    } else if l == "iso-8859-8"@ || l == "iso88598"@ || l == "iso-8859-8-i"@ || l == "iso88598i"@ {
        Some(Charset::Codec(ISO_8859_8))
    } else if l == "iso-8859-10"@ || l == "iso885910"@ {
        Some(Charset::Codec(ISO_8859_10))
    } else if l == "iso-8859-13"@ || l == "iso885913"@ {
        Some(Charset::Codec(ISO_8859_13))
    } else if l == "iso-8859-14"@ || l == "iso885914"@ {
        Some(Charset::Codec(ISO_8859_14))
    } else if l == "iso-8859-15"@ || l == "iso885915"@ {
        Some(Charset::Codec(ISO_8859_15))
    } else if l == "iso-8859-16"@ || l == "iso885916"@ {
        Some(Charset::Codec(ISO_8859_16))
    } else if l == "ibm-866"@ || l == "ibm866"@ || l == "cp866"@ || l == "cp-866"@ || l == "866"@ {
        Some(Charset::Codec(IBM866))
    } else if l == "koi8-r"@ || l == "koi8r"@ {
        Some(Charset::Codec(KOI8_R))
    } else if l == "koi8-u"@ || l == "koi8u"@ {
        Some(Charset::Codec(KOI8_U))
    } else if l == "macintosh"@ || l == "mac-roman"@ || l == "macroman"@ {
        Some(Charset::Codec(MAC_ROMAN))
    } else if l == "windows-874"@ || l == "windows874"@ || l == "cp1162"@ || l == "cp-1162"@
        || l == "ibm-1162"@ || l == "ibm1162"@ {
        Some(Charset::Codec(WINDOWS_874))
    } else if l == "windows-1250"@ || l == "windows1250"@ || l == "cp1250"@ || l == "cp-1250"@ {
        Some(Charset::Codec(WINDOWS_1250))
    } else if l == "windows-1251"@ || l == "windows1251"@ || l == "cp1251"@ || l == "cp-1251"@ {
        Some(Charset::Codec(WINDOWS_1251))
    } else if l == "windows-1252"@ || l == "windows1252"@ || l == "cp1252"@ || l == "cp-1252"@ {
        Some(Charset::Codec(WINDOWS_1252))
    } else if l == "windows-1253"@ || l == "windows1253"@ || l == "cp1253"@ || l == "cp-1253"@ {
        Some(Charset::Codec(WINDOWS_1253))
    } else if l == "windows-1254"@ || l == "windows1254"@ || l == "cp1254"@ || l == "cp-1254"@ {
        Some(Charset::Codec(WINDOWS_1254))
    } else if l == "windows-1255"@ || l == "windows1255"@ || l == "cp1255"@ || l == "cp-1255"@
        || l == "ibm-1255"@ || l == "ibm1255"@ {
        Some(Charset::Codec(WINDOWS_1255))
    } else if l == "windows-1256"@ || l == "windows1256"@ || l == "cp1256"@ || l == "cp-1256"@ {
        Some(Charset::Codec(WINDOWS_1256))
    } else if l == "windows-1257"@ || l == "windows1257"@ || l == "cp1257"@ || l == "cp-1257"@
        || l == "ibm922"@ || l == "ibm-922"@ {
        Some(Charset::Codec(WINDOWS_1257))
    } else if l == "windows-1258"@ || l == "windows1258"@ || l == "cp1258"@ || l == "cp-1258"@ {
        Some(Charset::Codec(WINDOWS_1258))
    } else if l == "mac-cyrillic"@ || l == "x-mac-cyrillic"@ || l == "maccyrillic"@
        || l == "xmaccyrillic"@ {
        Some(Charset::Codec(MAC_CYRILLIC))
    } else if l == "ascii"@ || l == "us-ascii"@ || l == "usascii"@ {
        Some(Charset::Codec(ASCII))
    } else if l == "big5-2003"@ || l == "big52003"@ {
        Some(Charset::Codec(BIG5_2003))
    } else if l == "euc-jp"@ || l == "eucjp"@ {
        Some(Charset::Codec(EUC_JP))
    } else if l == "gb-18030"@ || l == "gb18030"@ {
        Some(Charset::Codec(GB18030))
    } else if l == "windows-936"@ || l == "windows936"@ || l == "gbk"@ || l == "cp936"@
        || l == "cp-936"@ {
        Some(Charset::Codec(GBK))
    } else if l == "hz"@ {
        Some(Charset::Codec(HZ))
    } else if l == "iso-2022-jp"@ || l == "iso2022jp"@ {
        Some(Charset::Codec(ISO_2022_JP))
    } else if l == "utf-16be"@ || l == "utf16be"@ {
        Some(Charset::Codec(UTF_16BE))
    } else if l == "utf-16le"@ || l == "utf16le"@ {
        Some(Charset::Codec(UTF_16LE))
    } else if l == "windows-31j"@ || l == "windows31j"@ || l == "cp943c"@ || l == "cp-943c"@
        || l == "windows932"@ || l == "windows-932"@ || l == "cp932"@ || l == "cp-932"@
        || l == "shift_jis"@ || l == "shift-jis"@ || l == "sjis"@ {
        Some(Charset::Codec(WINDOWS_31J))
    } else if l == "windows-949"@ || l == "windows949"@ || l == "ms949"@ || l == "ms-949"@
        || l == "cp949"@ || l == "cp-949"@ || l == "ibm-1363"@ || l == "ibm1363"@
        || l == "euc-kr"@ || l == "euckr"@ {
        Some(Charset::Codec(WINDOWS_949))
    } else {
        None
    }
}

/// The charset table: looks a normalized label up.
pub fn charset_for_label(l: &Vec<char>) -> (r: Option<Charset>)
    ensures
        r == charset_of_label(l@),
{
    if chars_equal_str(l, "utf8") || chars_equal_str(l, "utf-8") {
        Some(Charset::Utf8)
    } else if chars_equal_str(l, "iso-8859-1") || chars_equal_str(l, "iso88591")
        || chars_equal_str(l, "iso-ir-100") || chars_equal_str(l, "isoir100")
        || chars_equal_str(l, "csisolatin1") || chars_equal_str(l, "latin1")
        || chars_equal_str(l, "latin-1") || chars_equal_str(l, "l1")
        || chars_equal_str(l, "ibm819") || chars_equal_str(l, "ibm-819")
        || chars_equal_str(l, "cp819") || chars_equal_str(l, "cp-819") {
        Some(Charset::Codec(ISO_8859_1))
    } else if chars_equal_str(l, "iso-8859-2") || chars_equal_str(l, "iso88592") {
        Some(Charset::Codec(ISO_8859_2))
    } else if chars_equal_str(l, "iso-8859-3") || chars_equal_str(l, "iso88593") {
        Some(Charset::Codec(ISO_8859_3))
    } else if chars_equal_str(l, "iso-8859-4") || chars_equal_str(l, "iso88594") {
        Some(Charset::Codec(ISO_8859_4))
    } else if chars_equal_str(l, "iso-8859-5") || chars_equal_str(l, "iso88595") {
        Some(Charset::Codec(ISO_8859_5))
    } else if chars_equal_str(l, "iso-8859-6") || chars_equal_str(l, "iso88596") {
        Some(Charset::Codec(ISO_8859_6))
    } else if chars_equal_str(l, "iso-8859-7") || chars_equal_str(l, "iso88597") {
        Some(Charset::Codec(ISO_8859_7))
    } else if chars_equal_str(l, "iso-8859-8") || chars_equal_str(l, "iso88598")
        || chars_equal_str(l, "iso-8859-8-i") || chars_equal_str(l, "iso88598i") {
        Some(Charset::Codec(ISO_8859_8))
    } else if chars_equal_str(l, "iso-8859-10") || chars_equal_str(l, "iso885910") {
        Some(Charset::Codec(ISO_8859_10))
    } else if chars_equal_str(l, "iso-8859-13") || chars_equal_str(l, "iso885913") {
        Some(Charset::Codec(ISO_8859_13))
    } else if chars_equal_str(l, "iso-8859-14") || chars_equal_str(l, "iso885914") {
        Some(Charset::Codec(ISO_8859_14))
    } else if chars_equal_str(l, "iso-8859-15") || chars_equal_str(l, "iso885915") {
        Some(Charset::Codec(ISO_8859_15))
    } else if chars_equal_str(l, "iso-8859-16") || chars_equal_str(l, "iso885916") {
        Some(Charset::Codec(ISO_8859_16))
    } else if chars_equal_str(l, "ibm-866") || chars_equal_str(l, "ibm866")
        || chars_equal_str(l, "cp866") || chars_equal_str(l, "cp-866")
        || chars_equal_str(l, "866") {
        Some(Charset::Codec(IBM866))
    } else if chars_equal_str(l, "koi8-r") || chars_equal_str(l, "koi8r") {
        Some(Charset::Codec(KOI8_R))
    } else if chars_equal_str(l, "koi8-u") || chars_equal_str(l, "koi8u") {
        Some(Charset::Codec(KOI8_U))
    } else if chars_equal_str(l, "macintosh") || chars_equal_str(l, "mac-roman")
        || chars_equal_str(l, "macroman") {
        Some(Charset::Codec(MAC_ROMAN))
    } else if chars_equal_str(l, "windows-874") || chars_equal_str(l, "windows874")
        || chars_equal_str(l, "cp1162") || chars_equal_str(l, "cp-1162")
        || chars_equal_str(l, "ibm-1162") || chars_equal_str(l, "ibm1162") {
        Some(Charset::Codec(WINDOWS_874))
    } else if chars_equal_str(l, "windows-1250") || chars_equal_str(l, "windows1250")
        || chars_equal_str(l, "cp1250") || chars_equal_str(l, "cp-1250") {
        Some(Charset::Codec(WINDOWS_1250))
    } else if chars_equal_str(l, "windows-1251") || chars_equal_str(l, "windows1251")
        || chars_equal_str(l, "cp1251") || chars_equal_str(l, "cp-1251") {
        Some(Charset::Codec(WINDOWS_1251))
    } else if chars_equal_str(l, "windows-1252") || chars_equal_str(l, "windows1252")
        || chars_equal_str(l, "cp1252") || chars_equal_str(l, "cp-1252") {
        Some(Charset::Codec(WINDOWS_1252))
    } else if chars_equal_str(l, "windows-1253") || chars_equal_str(l, "windows1253")
        || chars_equal_str(l, "cp1253") || chars_equal_str(l, "cp-1253") {
        Some(Charset::Codec(WINDOWS_1253))
    } else if chars_equal_str(l, "windows-1254") || chars_equal_str(l, "windows1254")
        || chars_equal_str(l, "cp1254") || chars_equal_str(l, "cp-1254") {
        Some(Charset::Codec(WINDOWS_1254))
    } else if chars_equal_str(l, "windows-1255") || chars_equal_str(l, "windows1255")
        || chars_equal_str(l, "cp1255") || chars_equal_str(l, "cp-1255")
        || chars_equal_str(l, "ibm-1255") || chars_equal_str(l, "ibm1255") {
        Some(Charset::Codec(WINDOWS_1255))
    } else if chars_equal_str(l, "windows-1256") || chars_equal_str(l, "windows1256")
        || chars_equal_str(l, "cp1256") || chars_equal_str(l, "cp-1256") {
        Some(Charset::Codec(WINDOWS_1256))
    } else if chars_equal_str(l, "windows-1257") || chars_equal_str(l, "windows1257")
        || chars_equal_str(l, "cp1257") || chars_equal_str(l, "cp-1257")
        || chars_equal_str(l, "ibm922") || chars_equal_str(l, "ibm-922") {
        Some(Charset::Codec(WINDOWS_1257))
    } else if chars_equal_str(l, "windows-1258") || chars_equal_str(l, "windows1258")
        || chars_equal_str(l, "cp1258") || chars_equal_str(l, "cp-1258") {
        Some(Charset::Codec(WINDOWS_1258))
    } else if chars_equal_str(l, "mac-cyrillic") || chars_equal_str(l, "x-mac-cyrillic")
        || chars_equal_str(l, "maccyrillic") || chars_equal_str(l, "xmaccyrillic") {
        Some(Charset::Codec(MAC_CYRILLIC))
    } else if chars_equal_str(l, "ascii") || chars_equal_str(l, "us-ascii")
        || chars_equal_str(l, "usascii") {
        Some(Charset::Codec(ASCII))
    } else if chars_equal_str(l, "big5-2003") || chars_equal_str(l, "big52003") {
        Some(Charset::Codec(BIG5_2003))
    } else if chars_equal_str(l, "euc-jp") || chars_equal_str(l, "eucjp") {
        Some(Charset::Codec(EUC_JP))
    } else if chars_equal_str(l, "gb-18030") || chars_equal_str(l, "gb18030") {
        Some(Charset::Codec(GB18030))
    } else if chars_equal_str(l, "windows-936") || chars_equal_str(l, "windows936")
        || chars_equal_str(l, "gbk") || chars_equal_str(l, "cp936")
        || chars_equal_str(l, "cp-936") {
        Some(Charset::Codec(GBK))
    } else if chars_equal_str(l, "hz") {
        Some(Charset::Codec(HZ))
    } else if chars_equal_str(l, "iso-2022-jp") || chars_equal_str(l, "iso2022jp") {
        Some(Charset::Codec(ISO_2022_JP))
    } else if chars_equal_str(l, "utf-16be") || chars_equal_str(l, "utf16be") {
        Some(Charset::Codec(UTF_16BE))
    } else if chars_equal_str(l, "utf-16le") || chars_equal_str(l, "utf16le") {
        Some(Charset::Codec(UTF_16LE))
    } else if chars_equal_str(l, "windows-31j") || chars_equal_str(l, "windows31j")
        || chars_equal_str(l, "cp943c") || chars_equal_str(l, "cp-943c")
        || chars_equal_str(l, "windows932") || chars_equal_str(l, "windows-932")
        || chars_equal_str(l, "cp932") || chars_equal_str(l, "cp-932")
        || chars_equal_str(l, "shift_jis") || chars_equal_str(l, "shift-jis")
        || chars_equal_str(l, "sjis") {
        Some(Charset::Codec(WINDOWS_31J))
    } else if chars_equal_str(l, "windows-949") || chars_equal_str(l, "windows949")
        || chars_equal_str(l, "ms949") || chars_equal_str(l, "ms-949")
        || chars_equal_str(l, "cp949") || chars_equal_str(l, "cp-949")
        || chars_equal_str(l, "ibm-1363") || chars_equal_str(l, "ibm1363")
        || chars_equal_str(l, "euc-kr") || chars_equal_str(l, "euckr") {
        Some(Charset::Codec(WINDOWS_949))
    } else {
        None
    }
}

/// A label as the table is keyed: without surrounding white space, and with
/// ASCII letters lower-cased.
pub open spec fn normalized_label(label: Seq<char>) -> Seq<char> {
    ascii_lower(trim_spec(label))
}

pub fn normalize_label(label: &str) -> (r: Vec<char>)
    ensures
        r@ == normalized_label(label@),
{
    let chars = chars_of(label);
    let trimmed = trim(&chars);
    to_ascii_lower(&trimmed)
}

/// The text that std's lossy UTF-8 conversion gives for invalid input.
pub uninterp spec fn utf8_lossy_invalid(b: Seq<u8>) -> Seq<char>;

/// The text that std's lossy UTF-8 conversion gives: the decoded text for
/// valid UTF-8.
pub open spec fn utf8_lossy(b: Seq<u8>) -> Seq<char> {
    if valid_utf8(b) {
        decode_utf8(b)
    } else {
        utf8_lossy_invalid(b)
    }
}

/// What codec `index` of `encoding::all::encodings()` decodes from `bytes`:
/// the text, with U+FFFD for invalid units when `replace` holds, or `None`
/// where a strict decode meets an invalid unit.
pub uninterp spec fn codec_decoded(index: nat, bytes: Seq<u8>, replace: bool) -> Option<Seq<char>>;

/// ISO-8859-1 text: each byte is the character of equal code point.
pub open spec fn latin1_text(bytes: Seq<u8>) -> Seq<char> {
    bytes.map_values(|b: u8| (b as u32) as char)
}

/// Relies on std's `String::from_utf8_lossy`: valid UTF-8 is decoded as it
/// stands, and the result depends on the bytes alone.
#[verifier::external_body]
fn lossy_utf8(src: &[u8]) -> (r: String)
    ensures
        valid_utf8(src@) ==> r@ == decode_utf8(src@),
        !valid_utf8(src@) ==> r@ == utf8_lossy_invalid(src@),
{
    String::from_utf8_lossy(src).into_owned()
}

/// Relies on std's `String::from_utf8`: it fails exactly on invalid UTF-8.
#[verifier::external_body]
fn strict_utf8(src: &[u8]) -> (r: Option<String>)
    ensures
        r is Some <==> valid_utf8(src@),
        r matches Some(s) ==> s@ == decode_utf8(src@),
{
    String::from_utf8(src.to_vec()).ok()
}

/// Relies on `encoding::all::encodings()` (a fixed list of codecs) and on
/// `Encoding::decode`: the result depends on the codec, the bytes and the
/// trap alone; `DecoderTrap::Replace` never fails; the ISO-8859-1 codec maps
/// each byte to the character of equal code point and never fails.
#[verifier::external_body]
fn decode_with_codec(index: usize, src: &[u8], trap: DecoderTrap) -> (r: Option<String>)
    requires
        index < TABLE_CODECS,
    ensures
        r is Some <==> codec_decoded(index as nat, src@, trap == DecoderTrap::Replace) is Some,
        r matches Some(s) ==> s@ == codec_decoded(index as nat, src@, trap == DecoderTrap::Replace)->0,
        trap == DecoderTrap::Replace ==> r is Some,
        index == ISO_8859_1 ==> r is Some,
        r matches Some(s) ==> (index == ISO_8859_1 ==> s@ == latin1_text(src@)),
{
    let trap = match trap {
        DecoderTrap::Strict => encoding::DecoderTrap::Strict,
        DecoderTrap::Replace => encoding::DecoderTrap::Replace,
    };
    encoding::all::encodings()[index].decode(src, trap).ok()
}

/// What decoding `b` under the charset that `label` names gives: the text,
/// or `None` where a strict decode fails. An unknown label decodes as lossy
/// UTF-8; ISO-8859-1 maps each byte to the character of equal code point.
pub open spec fn transcoded(b: Seq<u8>, label: Seq<char>, trap: DecoderTrap) -> Option<Seq<char>> {
    match charset_of_label(normalized_label(label)) {
        Some(Charset::Utf8) => if trap == DecoderTrap::Replace {
            Some(utf8_lossy(b))
        } else if valid_utf8(b) {
            Some(decode_utf8(b))
        } else {
            None
        },
        Some(Charset::Codec(k)) => if k == ISO_8859_1 {
            Some(latin1_text(b))
        } else {
            codec_decoded(k as nat, b, trap == DecoderTrap::Replace)
        },
        None => Some(utf8_lossy(b)),
    }
}

/// Decodes `src` under the charset that `encoding` names. Only a strict
/// decode under a known charset can fail: under UTF-8 exactly on invalid
/// input, under another codec where it rejects a unit.
pub fn decode_bytes(src: &[u8], encoding: &str, trap: DecoderTrap) -> (r: DecodingResult)
    ensures
        match transcoded(src@, encoding@, trap) {
            Some(t) => r matches Ok(s) && s@ == t,
            None => r is Err,
        },
        trap == DecoderTrap::Replace ==> r is Ok,
{
    let label = normalize_label(encoding);
    match charset_for_label(&label) {
        Some(Charset::Utf8) => {
            if trap == DecoderTrap::Replace {
                Ok(lossy_utf8(src))
            } else {
                match strict_utf8(src) {
                    Some(s) => Ok(s),
                    None => Err(CharsetDecodeError),
                }
            }
        },
        Some(Charset::Codec(k)) => {
            match decode_with_codec(k, src, trap) {
                Some(s) => Ok(s),
                None => Err(CharsetDecodeError),
            }
        },
        None => Ok(lossy_utf8(src)),
    }
}

/// `src` as UTF-8, with U+FFFD for each invalid sequence.
pub fn to_utf8_lossy(src: &[u8]) -> (r: UTF8String)
    ensures
        r@ == utf8_lossy(src@),
{
    lossy_utf8(src)
}

/// `src` as UTF-8; fails exactly on invalid UTF-8.
pub fn to_utf8(src: &[u8]) -> (r: DecodingResult)
    ensures
        r is Ok <==> valid_utf8(src@),
        r matches Ok(s) ==> s@ == decode_utf8(src@),
{
    match strict_utf8(src) {
        Some(s) => Ok(s),
        None => Err(CharsetDecodeError),
    }
}

/// The text that the fallback decoder gives for `b` under `label`: the
/// decode under `DecoderTrap::Replace`, which does not fail.
pub open spec fn decoded_text(b: Seq<u8>, label: Seq<char>) -> Seq<char> {
    match transcoded(b, label, DecoderTrap::Replace) {
        Some(t) => t,
        None => utf8_lossy(b),
    }
}

/// Decodes `src` under the charset `encoding` names; where that fails, under
/// `alt_encoding`; where that fails too, as lossy UTF-8. Always gives text:
/// a decode under `DecoderTrap::Replace` does not fail.
pub fn attempt_decode(src: &[u8], encoding: &str, alt_encoding: &str) -> (r: UTF8String)
    ensures
        transcoded(src@, encoding@, DecoderTrap::Replace) is Some,
        r@ == decoded_text(src@, encoding@),
{
    match decode_bytes(src, encoding, DEFAULT_DECODER_TRAP) {
        Ok(result) => result,
        Err(_) => match decode_bytes(src, alt_encoding, DEFAULT_DECODER_TRAP) {
            Ok(alt_result) => alt_result,
            Err(_) => to_utf8_lossy(src),
        },
    }
}

/// Decoding valid UTF-8 under the label `utf-8` gives back exactly the text
/// that the bytes encode.
pub proof fn lemma_attempt_decode_valid_utf8(b: Seq<u8>)
    requires
        valid_utf8(b),
    ensures
        transcoded(b, "utf-8"@, DecoderTrap::Replace) == Some(decode_utf8(b)),
{
    reveal_strlit("utf-8");
    let l = "utf-8"@;
    assert(trim_start_spec(l) == l);
    assert(trim_end_spec(l) == l);
    assert(ascii_lower(l) =~= l);
    assert(normalized_label(l) == l);
}

/// Under a label that names no known charset, the fallback decoder gives
/// exactly what lossy UTF-8 decoding gives.
pub proof fn lemma_unknown_label_is_lossy_utf8(b: Seq<u8>, label: Seq<char>)
    requires
        charset_of_label(normalized_label(label)) is None,
    ensures
        transcoded(b, label, DecoderTrap::Replace) == Some(utf8_lossy(b)),
{
}

/// Decoding under the label `not-a-real-charset`, which names no charset,
/// gives exactly what lossy UTF-8 decoding gives.
pub proof fn lemma_not_a_real_charset_is_lossy_utf8(b: Seq<u8>)
    ensures
        transcoded(b, "not-a-real-charset"@, DecoderTrap::Replace) == Some(utf8_lossy(b)),
{
    reveal_strlit("not-a-real-charset");
    reveal_strlit("utf8");
    reveal_strlit("utf-8");
    reveal_strlit("iso-8859-1");
    reveal_strlit("iso88591");
    reveal_strlit("iso-ir-100");
    reveal_strlit("isoir100");
    reveal_strlit("csisolatin1");
    reveal_strlit("latin1");
    reveal_strlit("latin-1");
    reveal_strlit("l1");
    reveal_strlit("ibm819");
    reveal_strlit("ibm-819");
    reveal_strlit("cp819");
    reveal_strlit("cp-819");
    reveal_strlit("iso-8859-2");
    reveal_strlit("iso88592");
    reveal_strlit("iso-8859-3");
    reveal_strlit("iso88593");
    reveal_strlit("iso-8859-4");
    reveal_strlit("iso88594");
    reveal_strlit("iso-8859-5");
    reveal_strlit("iso88595");
    reveal_strlit("iso-8859-6");
    reveal_strlit("iso88596");
    reveal_strlit("iso-8859-7");
    reveal_strlit("iso88597");
    reveal_strlit("iso-8859-8");
    reveal_strlit("iso88598");
    reveal_strlit("iso-8859-8-i");
    reveal_strlit("iso88598i");
    reveal_strlit("iso-8859-10");
    reveal_strlit("iso885910");
    reveal_strlit("iso-8859-13");
    reveal_strlit("iso885913");
    reveal_strlit("iso-8859-14");
    reveal_strlit("iso885914");
    reveal_strlit("iso-8859-15");
    reveal_strlit("iso885915");
    reveal_strlit("iso-8859-16");
    reveal_strlit("iso885916");
    reveal_strlit("ibm-866");
    reveal_strlit("ibm866");
    reveal_strlit("cp866");
    reveal_strlit("cp-866");
    reveal_strlit("866");
    reveal_strlit("koi8-r");
    reveal_strlit("koi8r");
    reveal_strlit("koi8-u");
    reveal_strlit("koi8u");
    reveal_strlit("macintosh");
    reveal_strlit("mac-roman");
    reveal_strlit("macroman");
    reveal_strlit("windows-874");
    reveal_strlit("windows874");
    reveal_strlit("cp1162");
    reveal_strlit("cp-1162");
    reveal_strlit("ibm-1162");
    reveal_strlit("ibm1162");
    reveal_strlit("windows-1250");
    reveal_strlit("windows1250");
    reveal_strlit("cp1250");
    reveal_strlit("cp-1250");
    reveal_strlit("windows-1251");
    reveal_strlit("windows1251");
    reveal_strlit("cp1251");
    reveal_strlit("cp-1251");
    reveal_strlit("windows-1252");
    reveal_strlit("windows1252");
    reveal_strlit("cp1252");
    reveal_strlit("cp-1252");
    reveal_strlit("windows-1253");
    reveal_strlit("windows1253");
    reveal_strlit("cp1253");
    reveal_strlit("cp-1253");
    reveal_strlit("windows-1254");
    reveal_strlit("windows1254");
    reveal_strlit("cp1254");
    reveal_strlit("cp-1254");
    reveal_strlit("windows-1255");
    reveal_strlit("windows1255");
    reveal_strlit("cp1255");
    reveal_strlit("cp-1255");
    reveal_strlit("ibm-1255");
    reveal_strlit("ibm1255");
    reveal_strlit("windows-1256");
    reveal_strlit("windows1256");
    reveal_strlit("cp1256");
    reveal_strlit("cp-1256");
    reveal_strlit("windows-1257");
    reveal_strlit("windows1257");
    reveal_strlit("cp1257");
    reveal_strlit("cp-1257");
    reveal_strlit("ibm922");
    reveal_strlit("ibm-922");
    reveal_strlit("windows-1258");
    reveal_strlit("windows1258");
    reveal_strlit("cp1258");
    reveal_strlit("cp-1258");
    reveal_strlit("mac-cyrillic");
    reveal_strlit("x-mac-cyrillic");
    reveal_strlit("maccyrillic");
    reveal_strlit("xmaccyrillic");
    reveal_strlit("ascii");
    reveal_strlit("us-ascii");
    reveal_strlit("usascii");
    reveal_strlit("big5-2003");
    reveal_strlit("big52003");
    reveal_strlit("euc-jp");
    reveal_strlit("eucjp");
    reveal_strlit("gb-18030");
    reveal_strlit("gb18030");
    reveal_strlit("windows-936");
    reveal_strlit("windows936");
    reveal_strlit("gbk");
    reveal_strlit("cp936");
    reveal_strlit("cp-936");
    reveal_strlit("hz");
    reveal_strlit("iso-2022-jp");
    reveal_strlit("iso2022jp");
    reveal_strlit("utf-16be");
    reveal_strlit("utf16be");
    reveal_strlit("utf-16le");
    reveal_strlit("utf16le");
    reveal_strlit("windows-31j");
    reveal_strlit("windows31j");
    reveal_strlit("cp943c");
    reveal_strlit("cp-943c");
    reveal_strlit("windows932");
    reveal_strlit("windows-932");
    reveal_strlit("cp932");
    reveal_strlit("cp-932");
    reveal_strlit("shift_jis");
    reveal_strlit("shift-jis");
    reveal_strlit("sjis");
    reveal_strlit("windows-949");
    reveal_strlit("windows949");
    reveal_strlit("ms949");
    reveal_strlit("ms-949");
    reveal_strlit("cp949");
    reveal_strlit("cp-949");
    reveal_strlit("ibm-1363");
    reveal_strlit("ibm1363");
    reveal_strlit("euc-kr");
    reveal_strlit("euckr");
    let l = "not-a-real-charset"@;
    assert(l.len() == 18);
    assert(trim_start_spec(l) == l);
    assert(trim_end_spec(l) == l);
    assert(ascii_lower(l) =~= l);
    assert(normalized_label(l) == l);
    assert(charset_of_label(l) is None);
}

pub trait DecodeUTF8 {
    fn decode(&self, encoding: &str, trap: DecoderTrap) -> DecodingResult;
}

pub trait AsUTF8Lossy {
    fn as_utf8_lossy(&self) -> UTF8String;
}

pub trait AsUTF8 {
    fn as_utf8(&self) -> DecodingResult;
}

impl DecodeUTF8 for &[u8] {
    fn decode(&self, encoding: &str, trap: DecoderTrap) -> DecodingResult {
        decode_bytes(self, encoding, trap)
    }
}

impl AsUTF8Lossy for &[u8] {
    fn as_utf8_lossy(&self) -> UTF8String {
        to_utf8_lossy(self)
    }
}

impl AsUTF8 for &[u8] {
    fn as_utf8(&self) -> DecodingResult {
        to_utf8(self)
    }
}

} // verus!
