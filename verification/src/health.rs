//! The health report.

use vstd::prelude::*;

verus! {

/// The state of the service as reported by the health check.
#[derive(Debug)]
pub struct HealthResponse {
    pub status: String,
    pub version: String,
    pub uptime_ms: u64,
    pub timestamp: String,
}

/// Whether `c` is one of the ASCII digits `0` to `9`.
pub open spec fn is_digit(c: char) -> bool {
    '0' <= c && c <= '9'
}

/// The characters at `i` and `i + 1` are two digits whose value lies in
/// `lo..=hi`.
pub open spec fn two_digits_in(s: Seq<char>, i: int, lo: int, hi: int) -> bool {
    &&& 0 <= i && i + 1 < s.len()
    &&& is_digit(s[i])
    &&& is_digit(s[i + 1])
    &&& lo <= (s[i] as int - 48) * 10 + (s[i + 1] as int - 48) <= hi
}

/// The characters `s[from..to]` are all digits.
pub open spec fn all_digits(s: Seq<char>, from: int, to: int) -> bool {
    &&& 0 <= from <= to <= s.len()
    &&& forall|i: int| from <= i < to ==> #[trigger] is_digit(s[i])
}

/// `s[0..end]` is a year as chrono renders it: four digits, or a `+`
/// followed by at least five digits for years beyond 9999.
pub open spec fn year_field(s: Seq<char>, end: int) -> bool {
    ||| end == 4 && all_digits(s, 0, 4)
    ||| end >= 6 && s.len() > 0 && s[0] == '+' && all_digits(s, 1, end)
}

/// The offset that closes an RFC 3339 time stamp in UTC.
pub open spec fn utc_offset_suffix() -> Seq<char> {
    seq!['+', '0', '0', ':', '0', '0']
}

/// `s[from..]` is the optional fraction of a second (nothing, or a `.` and
/// 3, 6 or 9 digits) followed by the offset `+00:00`.
pub open spec fn fraction_and_offset(s: Seq<char>, from: int) -> bool {
    ||| s.subrange(from, s.len() as int) == utc_offset_suffix()
    ||| exists|k: int|
        (k == 3 || k == 6 || k == 9) && from + 1 + k + 6 == s.len() && #[trigger] all_digits(
            s,
            from + 1,
            from + 1 + k,
        ) && s[from] == '.' && s.subrange(from + 1 + k, s.len() as int) == utc_offset_suffix()
}

/// `s` is a UTC time as rendered by chrono's `to_rfc3339`:
/// `YYYY-MM-DDTHH:MM:SS`, an optional fraction of a second and `+00:00`,
/// with month 01-12, day 01-31, hour 00-23, minute 00-59 and second 00-60.
pub open spec fn is_utc_rfc3339(s: Seq<char>) -> bool {
    exists|e: int|
        #[trigger] year_field(s, e) && e + 15 <= s.len() && s[e] == '-' && two_digits_in(
            s,
            e + 1,
            1,
            12,
        ) && s[e + 3] == '-' && two_digits_in(s, e + 4, 1, 31) && s[e + 6] == 'T'
            && two_digits_in(s, e + 7, 0, 23) && s[e + 9] == ':' && two_digits_in(s, e + 10, 0, 59)
            && s[e + 12] == ':' && two_digits_in(s, e + 13, 0, 60) && fraction_and_offset(
            s,
            e + 15,
        )
}

/// Calls `chrono::Utc::now` and renders the time with `to_rfc3339`. The
/// time is the machine's clock: the contract states the shape that every
/// such rendering has (four-digit year, or `+` and five or more digits past
/// 9999; two-digit month, day, hour, minute and second; a fraction of 3, 6
/// or 9 digits unless the nanoseconds are zero; and the offset written as
/// `+00:00`, never `Z`, for this call).
#[verifier::external_body]
fn utc_now_rfc3339() -> (s: String)
    ensures
        is_utc_rfc3339(s@),
{
    chrono::Utc::now().to_rfc3339()
}

/// The health report of a service of the given version that has been up
/// for `uptime_ms` milliseconds, stamped with the current UTC time.
pub fn health_check(version: String, uptime_ms: u64) -> (h: HealthResponse)
    ensures
        h.status@ == "healthy"@,
        h.version == version,
        h.uptime_ms == uptime_ms,
        is_utc_rfc3339(h.timestamp@),
{
    HealthResponse {
        status: String::from_str("healthy"),
        version,
        uptime_ms,
        timestamp: utc_now_rfc3339(),
    }
}

/// A UTC time stamp ends with the offset `+00:00`.
pub proof fn lemma_timestamp_ends_in_utc(s: Seq<char>)
    requires
        is_utc_rfc3339(s),
    ensures
        s.len() >= 6,
        s.subrange(s.len() - 6, s.len() as int) == utc_offset_suffix(),
{
    let e = choose|e: int| #[trigger] year_field(s, e) && e + 15 <= s.len() && s[e] == '-'
        && two_digits_in(s, e + 1, 1, 12) && s[e + 3] == '-' && two_digits_in(s, e + 4, 1, 31)
        && s[e + 6] == 'T' && two_digits_in(s, e + 7, 0, 23) && s[e + 9] == ':' && two_digits_in(
        s,
        e + 10,
        0,
        59,
    ) && s[e + 12] == ':' && two_digits_in(s, e + 13, 0, 60) && fraction_and_offset(s, e + 15);
    let f = e + 15;
    if s.subrange(f, s.len() as int) == utc_offset_suffix() {
        assert(s.subrange(f, s.len() as int).len() == 6);
        assert(s.subrange(s.len() - 6, s.len() as int) =~= s.subrange(f, s.len() as int));
    } else {
        let k = choose|k: int|
            (k == 3 || k == 6 || k == 9) && f + 1 + k + 6 == s.len() && #[trigger] all_digits(
                s,
                f + 1,
                f + 1 + k,
            ) && s[f] == '.' && s.subrange(f + 1 + k, s.len() as int) == utc_offset_suffix();
        assert(s.subrange(s.len() - 6, s.len() as int) =~= s.subrange(f + 1 + k, s.len() as int));
    }
}

} // verus!
