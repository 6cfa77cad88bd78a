//! The RFC 2047 encoded-word scanner: a state machine that walks text such as
//! `=?iso-8859-1?Q?=A1Hola?=`, decodes each Base64 or quoted-printable payload
//! into bytes, and turns the bytes of each run of one charset into text.

use vstd::prelude::*;
use vstd::string::*;
use crate::charset::{attempt_decode, decoded_text};
use crate::text::{chars_of, string_of, to_ascii_lower, ascii_lower, chars_equal};

verus! {

/// How an encoded word's payload is encoded.
#[derive(Clone, Copy, Debug, PartialEq, Eq, Structural)]
pub enum MimeEncoding {
    Base64Encoding,
    QEncoding,
}

/// Where the scanner stands in the encoded word.
#[derive(Clone, Copy, Debug, PartialEq, Eq, Structural)]
pub enum ParsingState {
    /// Looking for the `?` that opens a charset label.
    NewScan,
    /// Inside a charset label.
    ScanningCharset,
    /// Between the label and the payload, where `B` or `Q` names the encoding.
    ScanningEncoding,
    /// Inside a payload of the given encoding.
    ScanningPayload(MimeEncoding),
}

/// Why a decode was given up.
#[derive(Clone, Copy, Debug, PartialEq, Eq, Structural)]
pub enum ParsingError {
    /// A Base64 payload is malformed.
    DecodingBase64,
    /// A quoted-printable payload is malformed.
    QDecoding,
    /// A backslash escape is malformed.
    Unescaping,
}

/// A span `[start, end)` of character positions in the scanned text.
#[derive(Clone, Copy, Debug, PartialEq, Eq, Structural)]
pub struct ViewRange {
    pub start: usize,
    pub end: usize,
}

pub open spec fn span(r: ViewRange, src: Seq<char>) -> Seq<char> {
    src.subrange(r.start as int, r.end as int)
}

impl ViewRange {
    pub fn new() -> (r: Self)
        ensures
            r == (ViewRange { start: 0, end: 0 }),
    {
        Self { start: 0, end: 0 }
    }

    /// The characters of `text` in the span.
    pub fn view(&self, text: &Vec<char>) -> (r: Vec<char>)
        requires
            self.start <= self.end <= text.len(),
        ensures
            r@ == span(*self, text@),
    {
        crate::text::slice_chars(text, self.start, self.end)
    }

    pub fn update(&mut self, other: Self)
        ensures
            *final(self) == other,
    {
        self.start = other.start;
        self.end = other.end;
    }
}

/// The state of a scan, as values.
pub struct ScanModel {
    pub state: ParsingState,
    pub payload_encoding: Option<MimeEncoding>,
    pub current: ViewRange,
    pub prev: Option<ViewRange>,
    pub encoded: Seq<char>,
    pub pending: Seq<u8>,
    pub result: Seq<char>,
}

/// What one step of the scan leads to.
pub enum ScanOutcome {
    Next(ScanModel),
    /// A `?` closed the encoding field before `B` or `Q` was seen: the text
    /// is no encoded word.
    Unrecognized,
    Failed(ParsingError),
}

/// The bytes that Base64 decoding of `s` gives, if `s` is valid Base64.
pub uninterp spec fn base64_decoded(s: Seq<char>) -> Option<Seq<u8>>;

/// The bytes that robust quoted-printable decoding of `s` gives, if it
/// succeeds.
pub uninterp spec fn quoted_printable_decoded(s: Seq<char>) -> Option<Seq<u8>>;

#[verifier::external_type_specification]
#[verifier::external_body]
pub struct ExBase64DecodeError(base64::DecodeError);

#[verifier::external_type_specification]
#[verifier::external_body]
pub struct ExQuotedPrintableError(quoted_printable::QuotedPrintableError);

/// Relies on `base64::decode` (standard alphabet): the result depends on the
/// input alone.
#[verifier::external_body]
pub(crate) fn decode_base64(s: &str) -> (r: Result<Vec<u8>, base64::DecodeError>)
    ensures
        r is Ok <==> base64_decoded(s@) is Some,
        r matches Ok(b) ==> b@ == base64_decoded(s@)->0,
{
    base64::decode(s.as_bytes())
}

/// Relies on `quoted_printable::decode` in `ParseMode::Robust`: the result
/// depends on the input alone, and in that mode decoding never fails.
#[verifier::external_body]
pub(crate) fn decode_quoted_printable_bytes(s: &str) -> (r: Result<Vec<u8>, quoted_printable::QuotedPrintableError>)
    ensures
        r is Ok,
        r is Ok <==> quoted_printable_decoded(s@) is Some,
        r matches Ok(b) ==> b@ == quoted_printable_decoded(s@)->0,
{
    quoted_printable::decode(s.as_bytes(), quoted_printable::ParseMode::Robust)
}

pub open spec fn initial_model() -> ScanModel {
    ScanModel {
        state: ParsingState::NewScan,
        payload_encoding: None,
        current: ViewRange { start: 0, end: 0 },
        prev: None,
        encoded: Seq::empty(),
        pending: Seq::empty(),
        result: Seq::empty(),
    }
}

/// The `?` at `n` closes a charset label. If the label differs (ignoring
/// ASCII case) from the previous one, the bytes gathered under the previous
/// label are decoded and appended to the result.
pub open spec fn close_charset(m: ScanModel, src: Seq<char>, n: int) -> ScanModel {
    let cur = ViewRange { start: m.current.start, end: n as usize };
    let flushed = match m.prev {
        Some(p) => if ascii_lower(span(p, src)) != ascii_lower(span(cur, src)) {
            ScanModel {
                result: m.result + decoded_text(m.pending, span(p, src)),
                pending: Seq::empty(),
                ..m
            }
        } else {
            m
        },
        None => m,
    };
    ScanModel { state: ParsingState::ScanningEncoding, current: cur, prev: Some(cur), ..flushed }
}

/// The `?` that closes a payload: its decoded bytes join the pending bytes.
pub open spec fn close_payload(m: ScanModel, decoded: Option<Seq<u8>>, e: ParsingError) -> ScanOutcome {
    match decoded {
        Some(b) => ScanOutcome::Next(
            ScanModel {
                state: ParsingState::NewScan,
                encoded: Seq::empty(),
                pending: m.pending + b,
                ..m
            },
        ),
        None => ScanOutcome::Failed(e),
    }
}

pub open spec fn with_encoded(m: ScanModel, c: char) -> ScanModel {
    ScanModel { encoded: m.encoded.push(c), ..m }
}

/// One transition: the scan in state `m` reads the character at `n`.
pub open spec fn scan_step(m: ScanModel, src: Seq<char>, n: int) -> ScanOutcome {
    let c = src[n];
    match m.state {
        ParsingState::NewScan => if c == '?' {
            ScanOutcome::Next(
                ScanModel {
                    state: ParsingState::ScanningCharset,
                    current: ViewRange { start: (n + 1) as usize, end: m.current.end },
                    ..m
                },
            )
        } else {
            ScanOutcome::Next(m)
        },
        ParsingState::ScanningCharset => if c == '?' {
            ScanOutcome::Next(close_charset(m, src, n))
        } else {
            ScanOutcome::Next(m)
        },
        ParsingState::ScanningEncoding => if c == '?' {
            match m.payload_encoding {
                Some(k) => ScanOutcome::Next(
                    ScanModel { state: ParsingState::ScanningPayload(k), ..m },
                ),
                None => ScanOutcome::Unrecognized,
            }
        } else if c == 'B' || c == 'b' {
            ScanOutcome::Next(
                ScanModel { payload_encoding: Some(MimeEncoding::Base64Encoding), ..m },
            )
        } else if c == 'Q' || c == 'q' {
            ScanOutcome::Next(ScanModel { payload_encoding: Some(MimeEncoding::QEncoding), ..m })
        } else {
            ScanOutcome::Next(m)
        },
        ParsingState::ScanningPayload(MimeEncoding::Base64Encoding) => if c == '\\' {
            ScanOutcome::Next(m)
        } else if c == '?' {
            close_payload(m, base64_decoded(m.encoded), ParsingError::DecodingBase64)
        } else {
            ScanOutcome::Next(with_encoded(m, c))
        },
        ParsingState::ScanningPayload(MimeEncoding::QEncoding) => if c == '\\' {
            if n + 1 < src.len() && src[n + 1] != '=' {
                ScanOutcome::Next(with_encoded(m, '\\'))
            } else {
                ScanOutcome::Next(m)
            }
        } else if c == '_' {
            ScanOutcome::Next(with_encoded(m, ' '))
        } else if c == '?' {
            close_payload(m, quoted_printable_decoded(m.encoded), ParsingError::QDecoding)
        } else {
            ScanOutcome::Next(with_encoded(m, c))
        },
    }
}

/// The outcome of scanning the first `n` characters of `src`.
pub open spec fn scan_run(src: Seq<char>, n: nat) -> ScanOutcome
    decreases n,
{
    if n == 0 {
        ScanOutcome::Next(initial_model())
    } else {
        match scan_run(src, (n - 1) as nat) {
            ScanOutcome::Next(m) => scan_step(m, src, n - 1),
            o => o,
        }
    }
}

/// The last charset label that the scan closed, or the empty label.
pub open spec fn last_label(m: ScanModel, src: Seq<char>) -> Seq<char> {
    match m.prev {
        Some(p) => span(p, src),
        None => Seq::empty(),
    }
}

/// What decoding the encoded words of `src` gives: the text of each charset
/// run in order, `src` itself where it holds no encoded word, or the error
/// of the first payload that does not decode.
pub open spec fn decoded_words(src: Seq<char>) -> Result<Seq<char>, ParsingError> {
    match scan_run(src, src.len()) {
        ScanOutcome::Next(m) => Ok(
            m.result + decoded_text(m.pending, last_label(m, src)),
        ),
        ScanOutcome::Unrecognized => Ok(src),
        ScanOutcome::Failed(e) => Err(e),
    }
}

/// Spans of a state stay inside a text of `len` characters, `n` of which
/// have been read.
pub open spec fn model_wf(m: ScanModel, len: nat, n: int) -> bool {
    &&& m.prev matches Some(p) ==> p.start <= p.end <= len
    &&& m.state == ParsingState::ScanningCharset ==> m.current.start <= n
    &&& m.current.start <= len
}

proof fn lemma_step_wf(m: ScanModel, src: Seq<char>, n: int)
    requires
        0 <= n < src.len() <= usize::MAX,
        model_wf(m, src.len(), n),
    ensures
        scan_step(m, src, n) matches ScanOutcome::Next(m2) ==> model_wf(m2, src.len(), n + 1),
{
}

/// The scanner's state, step by step.
pub struct EncodedWordScanner {
    pub state: ParsingState,
    pub payload_encoding: Option<MimeEncoding>,
    pub current: ViewRange,
    pub prev: Option<ViewRange>,
    pub encoded: Vec<char>,
    pub pending: Vec<u8>,
    pub result: String,
}

/// What a step of the scanner did.
#[derive(Clone, Copy, Debug, PartialEq, Eq, Structural)]
pub enum StepResult {
    Continue,
    Unrecognized,
    Failed(ParsingError),
}

impl EncodedWordScanner {
    pub open spec fn model(&self) -> ScanModel {
        ScanModel {
            state: self.state,
            payload_encoding: self.payload_encoding,
            current: self.current,
            prev: self.prev,
            encoded: self.encoded@,
            pending: self.pending@,
            result: self.result@,
        }
    }

    pub fn new() -> (r: Self)
        ensures
            r.model() == initial_model(),
    {
        let r = EncodedWordScanner {
            state: ParsingState::NewScan,
            payload_encoding: None,
            current: ViewRange::new(),
            prev: None,
            encoded: Vec::new(),
            pending: Vec::new(),
            result: String::new(),
        };
        assert(r.model().encoded =~= Seq::<char>::empty());
        assert(r.model().pending =~= Seq::<u8>::empty());
        assert(r.model().result =~= Seq::<char>::empty());
        r
    }

    fn close_charset(&mut self, src: &Vec<char>, n: usize, alt_encoding: &str)
        requires
            n < src.len(),
            model_wf(old(self).model(), src.len() as nat, n as int),
            old(self).state == ParsingState::ScanningCharset,
        ensures
            final(self).model() == close_charset(old(self).model(), src@, n as int),
    {
        let cur = ViewRange { start: self.current.start, end: n };
        if let Some(p) = self.prev {
            let prev_label = p.view(src);
            let cur_label = cur.view(src);
            if !chars_equal(&to_ascii_lower(&prev_label), &to_ascii_lower(&cur_label)) {
                let label = string_of(&prev_label);
                let text = attempt_decode(self.pending.as_slice(), label.as_str(), alt_encoding);
                self.result.append(text.as_str());
                self.pending.clear();
            }
        }
        self.current.update(cur);
        self.prev = Some(cur);
        self.state = ParsingState::ScanningEncoding;
        assert(final(self).model().pending =~= close_charset(old(self).model(), src@, n as int).pending);
    }

    fn close_payload(&mut self, kind: MimeEncoding) -> (r: StepResult)
        ensures
            ({
                let (decoded, e) = match kind {
                    MimeEncoding::Base64Encoding => (
                        base64_decoded(old(self).encoded@),
                        ParsingError::DecodingBase64,
                    ),
                    MimeEncoding::QEncoding => (
                        quoted_printable_decoded(old(self).encoded@),
                        ParsingError::QDecoding,
                    ),
                };
                match close_payload(old(self).model(), decoded, e) {
                    ScanOutcome::Next(m) => r == StepResult::Continue && final(self).model() == m,
                    ScanOutcome::Failed(e2) => r == StepResult::Failed(e2),
                    ScanOutcome::Unrecognized => false,
                }
            }),
    {
        let payload = string_of(&self.encoded);
        let decoded = match kind {
            MimeEncoding::Base64Encoding => match decode_base64(payload.as_str()) {
                Ok(b) => Ok(b),
                Err(_) => Err(ParsingError::DecodingBase64),
            },
            MimeEncoding::QEncoding => match decode_quoted_printable_bytes(payload.as_str()) {
                Ok(b) => Ok(b),
                Err(_) => Err(ParsingError::QDecoding),
            },
        };
        match decoded {
            Ok(mut b) => {
                self.encoded.clear();
                self.pending.append(&mut b);
                self.state = ParsingState::NewScan;
                assert(self.encoded@ =~= Seq::<char>::empty());
                StepResult::Continue
            },
            Err(e) => StepResult::Failed(e),
        }
    }

    /// Reads the character of `src` at `n`.
    pub fn step(&mut self, src: &Vec<char>, n: usize, alt_encoding: &str) -> (r: StepResult)
        requires
            n < src.len(),
            model_wf(old(self).model(), src.len() as nat, n as int),
        ensures
            match scan_step(old(self).model(), src@, n as int) {
                ScanOutcome::Next(m) => r == StepResult::Continue && final(self).model() == m,
                ScanOutcome::Unrecognized => r == StepResult::Unrecognized,
                ScanOutcome::Failed(e) => r == StepResult::Failed(e),
            },
    {
        let c = src[n];
        match self.state {
            ParsingState::NewScan => {
                if c == '?' {
                    self.current.start = n + 1;
                    self.state = ParsingState::ScanningCharset;
                }
                StepResult::Continue
            },
            ParsingState::ScanningCharset => {
                if c == '?' {
                    self.close_charset(src, n, alt_encoding);
                }
                StepResult::Continue
            },
            ParsingState::ScanningEncoding => {
                if c == '?' {
                    match self.payload_encoding {
                        Some(k) => {
                            self.state = ParsingState::ScanningPayload(k);
                            StepResult::Continue
                        },
                        None => StepResult::Unrecognized,
                    }
                } else {
                    if c == 'B' || c == 'b' {
                        self.payload_encoding = Some(MimeEncoding::Base64Encoding);
                    } else if c == 'Q' || c == 'q' {
                        self.payload_encoding = Some(MimeEncoding::QEncoding);
                    }
                    StepResult::Continue
                }
            },
            ParsingState::ScanningPayload(MimeEncoding::Base64Encoding) => {
                if c == '\\' {
                    StepResult::Continue
                } else if c == '?' {
                    self.close_payload(MimeEncoding::Base64Encoding)
                } else {
                    self.encoded.push(c);
                    StepResult::Continue
                }
            },
            ParsingState::ScanningPayload(MimeEncoding::QEncoding) => {
                if c == '\\' {
                    if n + 1 < src.len() && src[n + 1] != '=' {
                        self.encoded.push('\\');
                    }
                    StepResult::Continue
                } else if c == '_' {
                    self.encoded.push(' ');
                    StepResult::Continue
                } else if c == '?' {
                    self.close_payload(MimeEncoding::QEncoding)
                } else {
                    self.encoded.push(c);
                    StepResult::Continue
                }
            },
        }
    }

    /// Ends the scan: the pending bytes are decoded under the last label.
    pub fn finish(self, src: &Vec<char>, alt_encoding: &str) -> (r: String)
        requires
            model_wf(self.model(), src.len() as nat, src.len() as int),
        ensures
            r@ == self.result@ + decoded_text(self.pending@, last_label(self.model(), src@)),
    {
        let label = match self.prev {
            Some(p) => string_of(&p.view(src)),
            None => String::new(),
        };
        let text = attempt_decode(self.pending.as_slice(), label.as_str(), alt_encoding);
        let mut result = self.result;
        result.append(text.as_str());
        result
    }
}

/// Decodes the RFC 2047 encoded words of `src`: each payload is decoded as
/// Base64 or quoted-printable, and the bytes of each run of one charset label
/// are decoded under it (with `alt_encoding` as its fallback). Text outside
/// the encoded words is dropped; `src` comes back unchanged where a `?` closes
/// the encoding field before `B` or `Q`.
pub fn manual_decode_mime_subject(src: &str, alt_encoding: &str) -> (r: Result<String, ParsingError>)
    ensures
        match decoded_words(src@) {
            Ok(t) => r matches Ok(s) && s@ == t,
            Err(e) => r == Err::<String, ParsingError>(e),
        },
{
    let chars = chars_of(src);
    let mut scanner = EncodedWordScanner::new();
    let mut n: usize = 0;
    while n < chars.len()
        invariant
            chars@ == src@,
            n <= chars.len(),
            scan_run(src@, n as nat) == ScanOutcome::Next(scanner.model()),
            model_wf(scanner.model(), chars.len() as nat, n as int),
        decreases chars.len() - n,
    {
        proof {
            lemma_step_wf(scanner.model(), src@, n as int);
        }
        match scanner.step(&chars, n, alt_encoding) {
            StepResult::Continue => {},
            StepResult::Unrecognized => {
                proof {
                    lemma_outcome_stays(src@, (n + 1) as nat, src@.len());
                }
                return Ok(string_of(&chars));
            },
            StepResult::Failed(e) => {
                proof {
                    lemma_outcome_stays(src@, (n + 1) as nat, src@.len());
                }
                return Err(e);
            },
        }
        n = n + 1;
    }
    Ok(scanner.finish(&chars, alt_encoding))
}

/// Once a scan stops, later characters do not change its outcome.
proof fn lemma_outcome_stays(src: Seq<char>, n: nat, k: nat)
    requires
        n <= k,
        !(scan_run(src, n) is Next),
    ensures
        scan_run(src, k) == scan_run(src, n),
    decreases k - n,
{
    if n < k {
        lemma_outcome_stays(src, n, (k - 1) as nat);
    }
}

} // verus!
