//! Settings read from the environment: the extractor's OCR configuration and
//! the address the server listens on.

use vstd::prelude::*;
use crate::text::{decimal, digit_char};

verus! {

/// How PDF documents are run through OCR.
#[derive(Debug, PartialEq, Eq, Structural, Clone, Copy)]
pub enum PdfOcrStrategy {
    /// Text layer only.
    NoOcr,
    /// OCR only.
    OcrOnly,
    /// Both OCR and the text layer.
    OcrAndTextExtraction,
    /// OCR where the page has no usable text layer.
    Auto,
}

/// The configuration the document extractor is built with.
#[derive(Debug)]
pub struct ExtractorConfig {
    /// Tesseract language codes joined by `+`, such as `eng+rus`.
    pub ocr_language: String,
    pub enable_image_preprocessing: bool,
    pub ocr_timeout_seconds: i32,
    pub pdf_ocr_strategy: PdfOcrStrategy,
}

/// The OCR languages used when none are configured.
pub open spec fn default_ocr_languages() -> Seq<char> {
    "eng+rus"@
}

/// The OCR time limit, in seconds.
pub const OCR_TIMEOUT_SECONDS: i32 = 240;

/// The extractor configuration for the languages set in the environment
/// (`TESSERACT_LANGUAGES`), `eng+rus` when it is not set: image
/// preprocessing on, a 240 s OCR time limit and automatic OCR of PDFs.
pub fn create_extractor(tesseract_languages: Option<String>) -> (cfg: ExtractorConfig)
    ensures
        cfg.ocr_language@ == match tesseract_languages {
            Some(l) => l@,
            None => default_ocr_languages(),
        },
        cfg.enable_image_preprocessing,
        cfg.ocr_timeout_seconds == OCR_TIMEOUT_SECONDS,
        cfg.pdf_ocr_strategy == PdfOcrStrategy::Auto,
{
    let ocr_language = match tesseract_languages {
        Some(l) => l,
        None => String::from_str("eng+rus"),
    };
    ExtractorConfig {
        ocr_language,
        enable_image_preprocessing: true,
        ocr_timeout_seconds: OCR_TIMEOUT_SECONDS,
        pdf_ocr_strategy: PdfOcrStrategy::Auto,
    }
}

/// Whether `c` is one of the ASCII digits `0` to `9`.
pub open spec fn is_ascii_digit(c: char) -> bool {
    '0' <= c && c <= '9'
}

/// The number written by the digits `s`, most significant first.
pub open spec fn digits_value(s: Seq<char>) -> nat
    decreases s.len(),
{
    if s.len() == 0 {
        0
    } else {
        digits_value(s.drop_last()) * 10 + (s.last() as int - 48) as nat
    }
}

/// The port written in `s`: a non-empty run of ASCII digits whose value is at
/// most 65535.
pub open spec fn spec_parse_port(s: Seq<char>) -> Option<u16> {
    if s.len() > 0 && (forall|i: int| 0 <= i < s.len() ==> #[trigger] is_ascii_digit(s[i]))
        && digits_value(s) <= 65535 {
        Some(digits_value(s) as u16)
    } else {
        None
    }
}

proof fn lemma_digits_value_grows(s: Seq<char>, k: int)
    requires
        0 <= k <= s.len(),
        forall|i: int| 0 <= i < s.len() ==> #[trigger] is_ascii_digit(s[i]),
    ensures
        digits_value(s.take(k)) <= digits_value(s),
    decreases s.len() - k,
{
    if k < s.len() {
        lemma_digits_value_grows(s, k + 1);
        assert(s.take(k + 1).drop_last() =~= s.take(k));
    } else {
        assert(s.take(k) =~= s);
    }
}

/// Reads a port number: only ASCII digits, at least one, value at most 65535.
pub fn parse_port(s: &str) -> (r: Option<u16>)
    ensures
        r == spec_parse_port(s@),
{
    let mut value: u32 = 0;
    let mut any_digit = false;
    let ghost mut count: int = 0;
    let chars = s.chars();
    for c in it: chars
        invariant
            it.seq() == s@,
            count == it.index(),
            any_digit == (count > 0),
            value == digits_value(s@.take(count)),
            value <= 65535,
            forall|i: int| 0 <= i < count ==> #[trigger] is_ascii_digit(s@[i]),
    {
        proof {
            assert(s@.take(count + 1).drop_last() =~= s@.take(count));
        }
        if c < '0' || c > '9' {
            proof {
                assert(!is_ascii_digit(s@[count]));
            }
            return None;
        }
        let d: u32 = (c as u32) - 48;
        let next: u32 = value * 10 + d;
        if next > 65535 {
            proof {
                assert(next == digits_value(s@.take(count + 1)));
                if forall|i: int| 0 <= i < s@.len() ==> #[trigger] is_ascii_digit(s@[i]) {
                    lemma_digits_value_grows(s@, count + 1);
                }
            }
            return None;
        }
        value = next;
        any_digit = true;
        proof {
            count = count + 1;
        }
    }
    proof {
        assert(s@.take(count) =~= s@);
    }
    if !any_digit {
        return None;
    }
    Some(value as u16)
}

/// The digits are exactly the ten characters `0` to `9`.
pub proof fn law_digits_are_zero_to_nine(c: char)
    ensures
        is_ascii_digit(c) <==> (c == '0' || c == '1' || c == '2' || c == '3' || c == '4' || c
            == '5' || c == '6' || c == '7' || c == '8' || c == '9'),
{
    assert(('0' as int) == 48 && ('9' as int) == 57);
    assert(('1' as int) == 49 && ('2' as int) == 50 && ('3' as int) == 51 && ('4' as int) == 52);
    assert(('5' as int) == 53 && ('6' as int) == 54 && ('7' as int) == 55 && ('8' as int) == 56);
}

proof fn lemma_decimal_reads_back(n: nat)
    ensures
        forall|i: int| 0 <= i < decimal(n).len() ==> #[trigger] is_ascii_digit(decimal(n)[i]),
        digits_value(decimal(n)) == n,
        decimal(n).len() > 0,
    decreases n,
{
    let d = digit_char(n % 10);
    assert(d as int == 48 + n % 10);
    if n < 10 {
        assert(decimal(n) == seq![d]);
        assert(decimal(n).drop_last() =~= Seq::<char>::empty());
        assert(digits_value(Seq::<char>::empty()) == 0);
        assert(digits_value(decimal(n)) == n);
    } else {
        lemma_decimal_reads_back(n / 10);
        let s = decimal(n / 10);
        assert(decimal(n) == s.push(d));
        assert(decimal(n).drop_last() =~= s);
        assert forall|i: int| 0 <= i < decimal(n).len() implies #[trigger] is_ascii_digit(
            decimal(n)[i],
        ) by {
            if i < s.len() {
                assert(decimal(n)[i] == s[i]);
            }
        }
        assert(digits_value(decimal(n)) == digits_value(s) * 10 + n % 10);
        assert(n == (n / 10) * 10 + n % 10);
    }
}

/// Every port reads back from its decimal rendering.
pub proof fn law_port_reads_decimal(n: u16)
    ensures
        spec_parse_port(decimal(n as nat)) == Some(n),
{
    lemma_decimal_reads_back(n as nat);
}

/// A decimal number above 65535 is no port.
pub proof fn law_port_rejects_large(n: nat)
    requires
        n > 65535,
    ensures
        spec_parse_port(decimal(n)) is None,
{
    lemma_decimal_reads_back(n);
}

/// A text holding any character other than `0`-`9` is no port.
pub proof fn law_port_rejects_non_digit(s: Seq<char>, i: int)
    requires
        0 <= i < s.len(),
        s[i] < '0' || s[i] > '9',
    ensures
        spec_parse_port(s) is None,
{
    assert(!is_ascii_digit(s[i]));
}

/// The host the server listens on when none is configured.
pub open spec fn default_host() -> Seq<char> {
    "0.0.0.0"@
}

/// The port the server listens on when none, or no valid one, is configured.
pub const DEFAULT_PORT: u16 = 8080;

/// The address to listen on, from `SERVER_HOST` and `SERVER_PORT`: the
/// configured host or `0.0.0.0`; the configured port when it reads as one,
/// 8080 otherwise.
pub fn server_address(host: Option<String>, port: Option<String>) -> (addr: (String, u16))
    ensures
        addr.0@ == match host {
            Some(h) => h@,
            None => default_host(),
        },
        addr.1 == match port {
            Some(p) => match spec_parse_port(p@) {
                Some(n) => n,
                None => DEFAULT_PORT,
            },
            None => DEFAULT_PORT,
        },
{
    let h = match host {
        Some(h) => h,
        None => String::from_str("0.0.0.0"),
    };
    let p = match port {
        Some(p) => match parse_port(p.as_str()) {
            Some(n) => n,
            None => DEFAULT_PORT,
        },
        None => DEFAULT_PORT,
    };
    (h, p)
}

} // verus!
