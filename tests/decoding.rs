use fast_webhooks::charset::{
    attempt_decode, decode_bytes, to_utf8, to_utf8_lossy, AsUTF8, AsUTF8Lossy, DecodeUTF8,
    DecoderTrap,
};
use fast_webhooks::escape::{unescape, unescape_as_bytes};
use fast_webhooks::header::{
    auto_decode, decode_base64_charset, decode_mime_header, decode_mime_header_rfc822,
    decode_quoted_printable, normalize_str, unescape_charset,
};
use fast_webhooks::mime::{manual_decode_mime_subject, ParsingError};
use fast_webhooks::text::{reverse_str, Reverse};

#[test]
fn unescape_as_bytes_common_escapes() {
    let bytes = unescape_as_bytes("\\n\\t\\x41").unwrap();
    assert_eq!(bytes, "\n\tA".as_bytes().to_vec());
}

#[test]
fn unescape_as_bytes_all_single_escapes() {
    let bytes = unescape_as_bytes("\\b\\f\\n\\r\\t\\'\\\"\\\\").unwrap();
    assert_eq!(bytes, vec![8, 12, 10, 13, 9, 39, 34, 92]);
}

#[test]
fn unescape_as_bytes_octal_forms() {
    assert_eq!(unescape_as_bytes("\\101").unwrap(), vec![65]);
    assert_eq!(unescape_as_bytes("\\77").unwrap(), vec![63]);
    // a leading digit above 3 takes the two-digit form
    assert_eq!(unescape_as_bytes("\\477").unwrap(), vec![39, b'7']);
    // one digit is a whole escape
    assert_eq!(unescape_as_bytes("\\0").unwrap(), vec![0x00]);
    assert_eq!(unescape_as_bytes("a\\7").unwrap(), vec![0x61, 0x07]);
    assert_eq!(unescape_as_bytes("\\18").unwrap(), vec![0x01, b'8']);
}

#[test]
fn unescape_as_bytes_unicode_keeps_low_byte() {
    assert_eq!(unescape_as_bytes("\\u0141").unwrap(), vec![0x41]);
    assert_eq!(unescape_as_bytes("\\u00e9x").unwrap(), vec![0xe9, b'x']);
}

#[test]
fn unescape_as_bytes_rejects_malformed_escapes() {
    assert_eq!(unescape_as_bytes("abc\\"), None);
    assert_eq!(unescape_as_bytes("\\x4"), None);
    assert_eq!(unescape_as_bytes("\\xZZ"), None);
    assert_eq!(unescape_as_bytes("\\q"), None);
    assert_eq!(unescape_as_bytes("\\u12"), None);
    assert_eq!(unescape_as_bytes("\\ud800"), None);
}

#[test]
fn unescape_gives_characters() {
    assert_eq!(unescape("caf\\u00e9\\n").unwrap(), "café\n");
    assert_eq!(unescape("plain text"), Some(String::from("plain text")));
    assert_eq!(unescape("bad\\"), None);
}

#[test]
fn decode_bytes_latin1_aliases() {
    let bytes: &[u8] = &[0x63, 0x61, 0x66, 0xe9];
    assert_eq!(decode_bytes(bytes, "iso-8859-1", DecoderTrap::Replace).unwrap(), "café");
    assert_eq!(decode_bytes(bytes, "  LATIN1 ", DecoderTrap::Strict).unwrap(), "café");
    assert_eq!(decode_bytes(bytes, "cp819", DecoderTrap::Replace).unwrap(), "café");
}

#[test]
fn decode_bytes_other_charsets() {
    assert_eq!(decode_bytes(&[0xc1], "koi8-r", DecoderTrap::Replace).unwrap(), "а");
    assert_eq!(decode_bytes(&[0x80], "windows-1252", DecoderTrap::Replace).unwrap(), "€");
    assert_eq!(decode_bytes(&[0x00, 0x41], "utf-16be", DecoderTrap::Replace).unwrap(), "A");
    assert_eq!(decode_bytes(&[0x41, 0x00], "UTF16LE", DecoderTrap::Replace).unwrap(), "A");
}

#[test]
fn decode_bytes_replace_never_fails() {
    let bytes: &[u8] = &[0xff, 0xfe, 0x80, 0x41];
    for label in ["utf-8", "ascii", "euc-jp", "shift_jis", "gbk", "hz", "no-such-charset", ""] {
        assert!(decode_bytes(bytes, label, DecoderTrap::Replace).is_ok(), "{}", label);
    }
}

#[test]
fn decode_bytes_strict_failures() {
    assert!(decode_bytes(&[0xff], "ascii", DecoderTrap::Strict).is_err());
    assert!(decode_bytes(&[0xff], "utf-8", DecoderTrap::Strict).is_err());
    assert_eq!(decode_bytes(&[0xff], "unknown-label", DecoderTrap::Strict).unwrap(), "\u{fffd}");
    assert_eq!(decode_bytes(&[0xff], "ascii", DecoderTrap::Replace).unwrap(), "\u{fffd}");
}

#[test]
fn attempt_decode_valid_utf8_round_trip() {
    let text = "héllo wörld ✓";
    assert_eq!(attempt_decode(text.as_bytes(), "utf-8", "utf-8"), text);
}

#[test]
fn attempt_decode_unknown_label_is_lossy_utf8() {
    let bytes: &[u8] = &[0x61, 0xff, 0x62, 0xc3, 0xa9];
    assert_eq!(
        attempt_decode(bytes, "not-a-real-charset", "utf-8"),
        String::from_utf8_lossy(bytes).to_string()
    );
    assert_eq!(attempt_decode(bytes, "not-a-real-charset", "utf-8"), "a\u{fffd}bé");
}

#[test]
fn utf8_helpers() {
    assert_eq!(to_utf8_lossy(&[0x61, 0xff]), "a\u{fffd}");
    assert_eq!(to_utf8("é".as_bytes()).unwrap(), "é");
    assert!(to_utf8(&[0xff]).is_err());
    let bytes: &[u8] = &[0xe9];
    assert_eq!(bytes.as_utf8_lossy(), "\u{fffd}");
    assert!(bytes.as_utf8().is_err());
    assert_eq!(bytes.decode("latin1", DecoderTrap::Strict).unwrap(), "é");
}

#[test]
fn manual_decode_base64_subject() {
    let r = manual_decode_mime_subject("Subject: =?iso-8859-1?B?oUhvbGEsIHNl8W9yIQ==?=", "utf-8");
    assert_eq!(r.unwrap(), "¡Hola, señor!");
}

#[test]
fn manual_decode_quoted_printable_subject() {
    let r = manual_decode_mime_subject("Subject: =?iso-8859-1?Q?=A1Hola,_se=F1or!?=", "utf-8");
    assert_eq!(r.unwrap(), "¡Hola, señor!");
}

#[test]
fn manual_decode_joins_runs_of_one_charset() {
    let r = manual_decode_mime_subject("=?utf-8?B?aGVs?= =?UTF-8?B?bG8=?=", "utf-8");
    assert_eq!(r.unwrap(), "hello");
}

#[test]
fn manual_decode_flushes_on_charset_change() {
    let r = manual_decode_mime_subject("=?iso-8859-1?Q?caf=E9?= =?utf-8?Q?_=C3=A9t=C3=A9?=", "utf-8");
    assert_eq!(r.unwrap(), "café été");
}

#[test]
fn manual_decode_q_escaped_equals() {
    let r = manual_decode_mime_subject("=?utf-8?Q?a\\=3Db?=", "utf-8");
    assert_eq!(r.unwrap(), "a=b");
}

#[test]
fn manual_decode_unrecognized_returns_input() {
    let src = "=?utf-8?x?abc?=";
    assert_eq!(manual_decode_mime_subject(src, "utf-8").unwrap(), src);
}

#[test]
fn manual_decode_bad_base64_fails() {
    let r = manual_decode_mime_subject("=?utf-8?B?a*b?=", "utf-8");
    assert_eq!(r, Err(ParsingError::DecodingBase64));
}

#[test]
fn manual_decode_without_words_is_empty() {
    assert_eq!(manual_decode_mime_subject("plain subject", "utf-8").unwrap(), "");
}

#[test]
fn normalize_str_resolves_escapes_and_breaks_lines() {
    assert_eq!(normalize_str("a\\\\b"), "a\\b");
    assert_eq!(normalize_str("a\\nb\\tc\\rd\\=e"), "a\nb\tc\rd=e");
    assert_eq!(normalize_str("x =?utf-8?Q?a?= y"), "x \r\n=?utf-8?Q?a?=\r\n y");
}

#[test]
fn decode_mime_header_line_by_line() {
    let src = "=?utf-8?B?aGVsbG8=?=\r\n  world \\x41\r\nplain";
    assert_eq!(decode_mime_header(src, "utf-8").unwrap(), "helloworld Aplain");
}

#[test]
fn decode_mime_header_bad_escape_fails() {
    assert_eq!(decode_mime_header("bad \\xZZ", "utf-8"), Err(ParsingError::Unescaping));
}

#[test]
fn decode_quoted_printable_body() {
    assert_eq!(decode_quoted_printable("caf=C3=A9", "utf-8", "utf-8"), "café");
    assert_eq!(decode_quoted_printable("caf=E9", "latin1", "utf-8"), "café");
}

#[test]
fn decode_base64_charset_body() {
    assert_eq!(decode_base64_charset("Y2Fm6Q==", "latin1", "utf-8").unwrap(), "café");
    assert_eq!(decode_base64_charset("not base64!", "utf-8", "utf-8"), Err(ParsingError::DecodingBase64));
}

#[test]
fn unescape_charset_body() {
    assert_eq!(unescape_charset("caf\\xe9", "latin1", "utf-8").unwrap(), "café");
    assert_eq!(unescape_charset("caf\\xc3\\xa9", "utf-8", "utf-8").unwrap(), "café");
    assert_eq!(unescape_charset("bad\\", "utf-8", "utf-8"), Err(ParsingError::Unescaping));
}

#[test]
fn auto_decode_prefers_encoded_words() {
    let r = auto_decode("=?utf-8?B?aGVsbG8=?= \\x41", "latin1", "utf-8");
    assert_eq!(r.unwrap(), "helloA");
}

#[test]
fn auto_decode_lowercase_marker() {
    let r = auto_decode("=?utf-8?q?caf=C3=A9?=", "utf-8", "utf-8");
    assert_eq!(r.unwrap(), "café");
}

#[test]
fn auto_decode_escapes() {
    assert_eq!(auto_decode("caf\\xe9", "latin1", "utf-8").unwrap(), "café");
}

#[test]
fn auto_decode_quoted_printable() {
    assert_eq!(auto_decode("caf=C3=A9", "utf-8", "utf-8").unwrap(), "café");
    assert_eq!(auto_decode("plain text", "utf-8", "utf-8").unwrap(), "plain text");
}

#[test]
fn rfc822_header_value() {
    let r = decode_mime_header_rfc822(b"Subject: =?utf-8?B?aGVsbG8=?=");
    assert_eq!(r.unwrap(), "hello");
}

#[test]
fn reverse_text() {
    assert_eq!(reverse_str("abc é"), "é cba");
    assert_eq!("xy".reverse(), "yx");
    assert_eq!(reverse_str(""), "");
}

#[test]
fn decode_quoted_printable_keeps_bad_octets() {
    assert_eq!(decode_quoted_printable("a=ZZb", "utf-8", "utf-8"), "a=ZZb");
}

#[test]
fn latin1_strict_maps_every_byte() {
    let bytes: Vec<u8> = (0u8..=255).collect();
    let text = decode_bytes(&bytes, " Latin-1", DecoderTrap::Strict).unwrap();
    let expected: String = bytes.iter().map(|&b| char::from(b)).collect();
    assert_eq!(text, expected);
}

#[test]
fn rfc822_header_failures() {
    assert!(decode_mime_header_rfc822(b"").is_err());
    assert!(decode_mime_header_rfc822(b" Subject: x").is_err());
}
