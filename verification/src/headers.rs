use crate::error::HeaderError;
use crate::percent::percent_decode_seq;
use crate::percent::percent_decode_str_bytes;
use crate::percent::string_from_utf8;
use actix_web::http::header::HeaderMap;
use vstd::prelude::*;
use vstd::string::StrSliceExecFns;
use vstd::string::StringSliceAdditionalSpecFns;
use vstd::utf8::decode_utf8;
use vstd::utf8::encode_utf8;
use vstd::utf8::valid_utf8;

verus! {

/// Custom HTTP header for expiry dates.
pub const EXPIRE: &'static str = "expire";

/// Custom HTTP header to override filename.
const FILENAME: &'static str = "filename";

/// A span of time since the caller's epoch, as whole seconds and subsecond
/// nanoseconds. It stands both for the injected reference time and for
/// parsed durations.
#[derive(Debug, Clone, Copy, PartialEq, Eq, Structural)]
pub struct Duration {
    /// Whole seconds.
    pub secs: u64,
    /// Nanoseconds below one second.
    pub nanos: u32,
}

impl Duration {
    /// Well-formed: the nanosecond part stays below one second.
    pub open spec fn wf(&self) -> bool {
        self.nanos < 1_000_000_000
    }

    /// Builds a span from whole seconds and subsecond nanoseconds.
    pub fn new(secs: u64, nanos: u32) -> (r: Duration)
        requires
            nanos < 1_000_000_000,
        ensures
            r.wf(),
            r.secs == secs,
            r.nanos == nanos,
    {
        Duration { secs, nanos }
    }

    /// The span in whole milliseconds.
    pub open spec fn spec_millis(&self) -> int {
        self.secs * 1000 + self.nanos / 1_000_000
    }

    /// The span in whole milliseconds.
    pub fn as_millis(&self) -> (r: u128)
        ensures
            r == self.spec_millis(),
    {
        self.secs as u128 * 1000 + (self.nanos / 1_000_000) as u128
    }
}

/// Declares actix-web's header map type, so verified code can take it in a
/// signature; its values stay opaque here.
#[verifier::external_type_specification]
#[verifier::external_body]
pub struct ExHeaderMap(HeaderMap);

/// What the header map holds, read as strings: the mapping from each name
/// string to the `to_str` reading of the first value `HeaderMap::get`
/// yields for it, defined exactly where both succeed. `get` matches names
/// case-insensitively, so a name in any casing is a key whenever the
/// header is present with a readable first value.
pub uninterp spec fn header_strings(m: HeaderMap) -> Map<Seq<char>, Seq<char>>;

/// Relies on actix-web's `HeaderMap::get` and `HeaderValue::to_str`: `get`
/// returns the first value for a name, matched case-insensitively and
/// consistently for an unchanged map, and `to_str` yields it as a string
/// exactly when every byte is printable ASCII, space or tab.
#[verifier::external_body]
fn get_header_str(headers: &HeaderMap, name: &str) -> (r: Option<String>)
    ensures
        match r {
            Some(v) => header_strings(*headers).contains_key(name@) && v@ == header_strings(
                *headers,
            )[name@],
            None => !header_strings(*headers).contains_key(name@),
        },
{
    headers.get(name).and_then(|v| v.to_str().ok()).map(|s| s.to_owned())
}

/// What humantime's duration grammar yields for a string: the parsed span
/// as whole seconds and subsecond nanoseconds, or `None` when the string is
/// not a valid duration expression.
pub uninterp spec fn parsed_duration(s: Seq<char>) -> Option<(u64, u32)>;

/// True for the ASCII code of a decimal digit.
pub open spec fn is_digit_byte(b: u8) -> bool {
    0x30 <= b <= 0x39
}

/// True for the ASCII code of a letter.
pub open spec fn is_ascii_letter(b: u8) -> bool {
    (0x41 <= b <= 0x5A) || (0x61 <= b <= 0x7A)
}

/// The clamp the magnitude scan works under: above the acceptance bound,
/// so a clamped scan can only reject.
pub const SCAN_CLAMP: u128 = 10_000_000_000_000_000_000;

/// The acceptance bound of the magnitude scan, in seconds: about 285
/// billion years, and at most half of the largest representable seconds
/// value.
pub const MAX_DURATION_SECONDS_BOUND: u128 = 9_000_000_000_000_000_000;

/// The most seconds one unit of the duration grammar can stand for, by the
/// first ASCII letter of its name: `m` must cover the month, the largest
/// of millisecond, minute and month; `s`, `n` and `u` name units of at
/// most one second; every other letter is charged at the year rate, the
/// largest unit there is.
pub open spec fn unit_second_bound(b: u8) -> int {
    if b == 0x73 || b == 0x6E || b == 0x75 {
        1
    } else if b == 0x6D || b == 0x4D {
        2_630_016
    } else if b == 0x68 {
        3600
    } else if b == 0x64 {
        86400
    } else if b == 0x77 {
        604800
    } else {
        31_557_600
    }
}

/// Clamps a scan value at [`SCAN_CLAMP`].
pub open spec fn scan_clamped(x: int) -> int {
    if x > SCAN_CLAMP {
        SCAN_CLAMP as int
    } else {
        x
    }
}

/// The magnitude scan from position `i` with a digit group `m` in hand, a
/// running total, and `in_unit` saying whether the last committed group's
/// unit letters are still running. A digit extends the group, or starts a
/// fresh one after a unit; the first letter after a group commits the
/// group at that letter's rate; anything else joins groups rather than
/// ending them; a group still in hand at the end is charged the year rate.
pub open spec fn scan_duration_bound(b: Seq<u8>, i: int, m: int, total: int, in_unit: bool) -> int
    decreases b.len() - i,
{
    if i < 0 || i >= b.len() {
        scan_clamped(total + m * 31_557_600)
    } else if is_digit_byte(b[i]) {
        if in_unit {
            scan_duration_bound(b, i + 1, b[i] - 0x30, total, false)
        } else {
            scan_duration_bound(b, i + 1, scan_clamped(m * 10 + b[i] - 0x30), total, false)
        }
    } else if is_ascii_letter(b[i]) {
        if in_unit {
            scan_duration_bound(b, i + 1, m, total, true)
        } else {
            scan_duration_bound(
                b,
                i + 1,
                0,
                scan_clamped(total + m * unit_second_bound(b[i])),
                true,
            )
        }
    } else {
        scan_duration_bound(b, i + 1, m, total, in_unit)
    }
}

/// An upper bound, in seconds, on any duration the duration grammar can
/// read out of these bytes. The grammar lets whitespace and the decimal
/// point stand inside a number, so the scan concatenates every group of
/// decimal digits across anything that is not an ASCII letter, and charges
/// the whole group to the first ASCII letter after it at the largest rate
/// a unit starting with that letter can have; that dominates the group's
/// integer part, its fraction part, and the nanosecond carries. The scan
/// clamps at [`SCAN_CLAMP`], above the acceptance bound, so clamping only
/// ever rejects.
pub open spec fn duration_seconds_bound(b: Seq<u8>) -> int {
    scan_duration_bound(b, 0, 0, 0, false)
}

/// Bound under which a duration string is handed to the duration parser:
/// everything it can denote stays at or below
/// [`MAX_DURATION_SECONDS_BOUND`] seconds, half of the largest
/// representable seconds value, so the parser's sums stay far from the
/// range where its final carry can overflow. Every plausible expiry lies
/// orders of magnitude below the bound; a value beyond it is rejected as
/// malformed before the parser runs.
pub open spec fn duration_magnitude_bounded(b: Seq<u8>) -> bool {
    duration_seconds_bound(b) <= MAX_DURATION_SECONDS_BOUND
}

/// Decides [`duration_magnitude_bounded`] for a string.
fn duration_within_bounds(s: &str) -> (r: bool)
    ensures
        r == duration_magnitude_bounded(s.spec_bytes()),
{
    let bytes = s.as_bytes_vec();
    let ghost all = bytes@;
    let mut m: u128 = 0;
    let mut total: u128 = 0;
    let mut in_unit: bool = false;
    let mut i: usize = 0;
    while i < bytes.len()
        invariant
            0 <= i <= all.len(),
            bytes@ == all,
            all == s.spec_bytes(),
            m <= SCAN_CLAMP,
            total <= SCAN_CLAMP,
            scan_duration_bound(all, i as int, m as int, total as int, in_unit)
                == duration_seconds_bound(all),
        decreases all.len() - i,
    {
        let x = bytes[i];
        if 0x30 <= x && x <= 0x39 {
            if in_unit {
                m = (x - 0x30) as u128;
                in_unit = false;
            } else {
                let grown: u128 = m * 10 + (x - 0x30) as u128;
                m = if grown > SCAN_CLAMP {
                    SCAN_CLAMP
                } else {
                    grown
                };
            }
        } else if (0x41 <= x && x <= 0x5A) || (0x61 <= x && x <= 0x7A) {
            if !in_unit {
                let mult: u128 = if x == 0x73 || x == 0x6E || x == 0x75 {
                    1
                } else if x == 0x6D || x == 0x4D {
                    2_630_016
                } else if x == 0x68 {
                    3600
                } else if x == 0x64 {
                    86400
                } else if x == 0x77 {
                    604800
                } else {
                    31_557_600
                };
                proof {
                    assert(m * mult <= SCAN_CLAMP * 31_557_600) by (nonlinear_arith)
                        requires
                            0 <= m <= SCAN_CLAMP,
                            0 <= mult <= 31_557_600,
                    ;
                }
                let committed: u128 = total + m * mult;
                total = if committed > SCAN_CLAMP {
                    SCAN_CLAMP
                } else {
                    committed
                };
                m = 0;
            }
            in_unit = true;
        }
        i = i + 1;
    }
    proof {
        assert(m * 31_557_600 <= SCAN_CLAMP * 31_557_600) by (nonlinear_arith)
            requires
                0 <= m <= SCAN_CLAMP,
        ;
    }
    let trailing: u128 = total + m * 31_557_600;
    let bound: u128 = if trailing > SCAN_CLAMP {
        SCAN_CLAMP
    } else {
        trailing
    };
    bound <= MAX_DURATION_SECONDS_BOUND
}

/// Relies on humantime::parse_duration: parses a human-readable duration
/// string into a `std::time::Duration`, whose nanosecond part is always
/// below one second, and which is a function of the string alone. The
/// magnitude bound is required because on an input whose seconds sum
/// lands exactly on the largest representable value with exactly one
/// second of leftover nanoseconds, the parser's carry overflows and
/// panics; under the bound every sum it builds stays at most half that
/// range. Digits, unit letters and the decimal point are all ASCII, so
/// the byte scan sees every token the parser reads.
#[verifier::external_body]
fn parse_duration_str(s: &str) -> (r: Option<(u64, u32)>)
    requires
        duration_magnitude_bounded(s.spec_bytes()),
    ensures
        match r {
            Some(p) => parsed_duration(s@) == Some(p) && p.1 < 1_000_000_000,
            None => parsed_duration(s@) is None,
        },
{
    humantime::parse_duration(s).ok().map(|d| (d.as_secs(), d.subsec_nanos()))
}

/// The whole seconds of reference time plus duration, nanosecond carry
/// included.
pub open spec fn expiry_secs(time: Duration, dsecs: u64, dnanos: u32) -> int {
    time.secs + dsecs + (time.nanos + dnanos) / 1_000_000_000
}

/// The expiry instant in milliseconds since the epoch: reference time plus
/// duration, truncated to whole milliseconds.
pub open spec fn expiry_millis(time: Duration, dsecs: u64, dnanos: u32) -> int {
    expiry_secs(time, dsecs, dnanos) * 1000 + ((time.nanos + dnanos) % 1_000_000_000)
        / 1_000_000
}

/// When the duration is a whole number of milliseconds, the expiry
/// instant is exactly the reference instant plus that many milliseconds.
pub proof fn lemma_expiry_adds_whole_millis(time: Duration, dsecs: u64, dnanos: u32)
    requires
        time.wf(),
        dnanos < 1_000_000_000,
        dnanos % 1_000_000 == 0,
    ensures
        expiry_millis(time, dsecs, dnanos) == time.spec_millis() + dsecs * 1000 + dnanos
            / 1_000_000,
{
    let a = time.nanos as int;
    let b = dnanos as int;
    let q = a / 1_000_000;
    let rr = a % 1_000_000;
    let kb = b / 1_000_000;
    assert(a == 1_000_000 * q + rr && 0 <= rr < 1_000_000 && 0 <= q < 1000) by (nonlinear_arith)
        requires
            0 <= a < 1_000_000_000,
            q == a / 1_000_000,
            rr == a % 1_000_000,
    ;
    assert(b == 1_000_000 * kb && 0 <= kb < 1000) by (nonlinear_arith)
        requires
            0 <= b < 1_000_000_000,
            b % 1_000_000 == 0,
            kb == b / 1_000_000,
    ;
    let x = a + b;
    assert(x == 1_000_000 * (q + kb) + rr);
    if q + kb < 1000 {
        assert(x / 1_000_000_000 == 0 && x % 1_000_000_000 == x) by (nonlinear_arith)
            requires
                0 <= x < 1_000_000_000,
        ;
        assert(x / 1_000_000 == q + kb) by (nonlinear_arith)
            requires
                x == 1_000_000 * (q + kb) + rr,
                0 <= rr < 1_000_000,
                0 <= q + kb,
        ;
    } else {
        assert(x / 1_000_000_000 == 1 && x % 1_000_000_000 == x - 1_000_000_000)
            by (nonlinear_arith)
            requires
                1_000_000_000 <= x < 2_000_000_000,
        ;
        assert((x - 1_000_000_000) / 1_000_000 == q + kb - 1000) by (nonlinear_arith)
            requires
                x - 1_000_000_000 == 1_000_000 * (q + kb - 1000) + rr,
                0 <= rr < 1_000_000,
                0 <= q + kb - 1000,
        ;
    }
}

/// The five-millisecond scenario in general: whenever the expire header
/// parses to five milliseconds and the sum stays representable, the expiry
/// lies strictly after the reference instant and strictly before the
/// reference instant plus ten milliseconds.
pub proof fn lemma_five_ms_expiry_window(time: Duration)
    requires
        time.wf(),
        expiry_secs(time, 0, 5_000_000) <= u64::MAX,
    ensures
        time.spec_millis() < expiry_millis(time, 0, 5_000_000),
        expiry_millis(time, 0, 5_000_000) < time.spec_millis() + 10,
{
    lemma_expiry_adds_whole_millis(time, 0, 5_000_000);
}

/// Parses the expiry date from the [`custom HTTP header`](EXPIRE).
///
/// Absence of the header is no error; a value the duration grammar
/// rejects, or one that can denote more than
/// [`MAX_DURATION_SECONDS_BOUND`] seconds — about 285 billion years, see
/// [`duration_magnitude_bounded`] — is an internal fault; a sum past the
/// representable range yields `None`.
pub fn parse_expiry_date(headers: &HeaderMap, time: Duration) -> (r: Result<
    Option<u128>,
    HeaderError,
>)
    requires
        time.wf(),
    ensures
        ({
            let m = header_strings(*headers);
            &&& !m.contains_key("expire"@) ==> r == Ok::<Option<u128>, HeaderError>(None)
            &&& m.contains_key("expire"@) && !duration_magnitude_bounded(
                encode_utf8(m["expire"@]),
            ) ==> (r matches Err(e) && e matches HeaderError::InternalFault(msg) && msg@
                == "invalid expiry date"@)
            &&& m.contains_key("expire"@) && duration_magnitude_bounded(
                encode_utf8(m["expire"@]),
            ) ==> match parsed_duration(m["expire"@]) {
                None => r matches Err(e) && e matches HeaderError::InternalFault(msg) && msg@
                    == "invalid expiry date"@,
                Some(d) => if expiry_secs(time, d.0, d.1) > u64::MAX {
                    r == Ok::<Option<u128>, HeaderError>(None)
                } else {
                    r matches Ok(o) && o matches Some(ms) && ms == expiry_millis(time, d.0, d.1)
                },
            }
        }),
{
    match get_header_str(headers, EXPIRE) {
        None => Ok(None),
        Some(value) => if !duration_within_bounds(value.as_str()) {
            Err(HeaderError::InternalFault("invalid expiry date".to_owned()))
        } else {
            match parse_duration_str(value.as_str()) {
            None => Err(HeaderError::InternalFault("invalid expiry date".to_owned())),
            Some((dsecs, dnanos)) => {
                let ns: u64 = time.nanos as u64 + dnanos as u64;
                let carry: u64 = ns / 1_000_000_000;
                match time.secs.checked_add(dsecs) {
                    None => Ok(None),
                    Some(s1) => match s1.checked_add(carry) {
                        None => Ok(None),
                        Some(secs) => {
                            let ms: u128 = secs as u128 * 1000 + ((ns % 1_000_000_000)
                                / 1_000_000) as u128;
                            Ok(Some(ms))
                        },
                    },
                }
            },
            }
        },
    }
}

/// Parses the filename from the header.
///
/// The filename may be percent-encoded (e.g. for unicode filenames),
/// so we decode it back to UTF-8. Absence of the header is no error; a
/// decoded value that is not valid UTF-8 is a caller fault.
pub fn parse_header_filename(headers: &HeaderMap) -> (r: Result<Option<String>, HeaderError>)
    ensures
        ({
            let m = header_strings(*headers);
            &&& !m.contains_key("filename"@) ==> r == Ok::<Option<String>, HeaderError>(None)
            &&& m.contains_key("filename"@) ==> {
                let decoded = percent_decode_seq(encode_utf8(m["filename"@]));
                if valid_utf8(decoded) {
                    r matches Ok(o) && o matches Some(f) && f@ == decode_utf8(decoded)
                } else {
                    r matches Err(e) && e matches HeaderError::CallerFault(msg) && msg@
                        == "file name is not valid UTF-8"@
                }
            }
        }),
{
    match get_header_str(headers, FILENAME) {
        None => Ok(None),
        Some(value) => {
            let bytes = percent_decode_str_bytes(value.as_str());
            match string_from_utf8(bytes) {
                Some(decoded) => Ok(Some(decoded)),
                None => Err(
                    HeaderError::CallerFault("file name is not valid UTF-8".to_owned()),
                ),
            }
        },
    }
}

} // verus!
