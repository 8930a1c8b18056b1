//! Wall-clock time. Instants are nanoseconds since the Unix epoch (UTC),
//! held in an `i128`, which holds every instant chrono can represent.
use vstd::prelude::*;
use vstd::arithmetic::div_mod::{lemma_fundamental_div_mod, lemma_fundamental_div_mod_converse};

verus! {

/// Nanoseconds in a second.
pub const NANOS_PER_SEC: i128 = 1_000_000_000;

/// The instant `secs` whole seconds and `nanos` nanoseconds after the epoch.
pub open spec fn instant_spec(secs: i64, nanos: u32) -> int {
    secs * 1_000_000_000 + nanos
}

/// The instant `secs` whole seconds and `nanos` nanoseconds after the epoch.
pub fn instant_of(secs: i64, nanos: u32) -> (t: i128)
    ensures
        t == instant_spec(secs, nanos),
{
    proof {
        assert(-9223372036854775808 * 1_000_000_000 <= secs * 1_000_000_000 <= 9223372036854775807 * 1_000_000_000)
            by (nonlinear_arith)
            requires
                -9223372036854775808 <= secs <= 9223372036854775807,
        ;
    }
    (secs as i128) * NANOS_PER_SEC + (nanos as i128)
}

/// An instant as whole seconds (rounded down) and the nanoseconds past
/// them, when the seconds fit in an `i64`.
pub open spec fn parts_spec(t: int) -> Option<(i64, u32)> {
    let secs = t / 1_000_000_000;
    if i64::MIN <= secs <= i64::MAX {
        Some((secs as i64, (t % 1_000_000_000) as u32))
    } else {
        None
    }
}

/// An instant as seconds rounded down and the nanoseconds past them
/// (`t == q * NANOS_PER_SEC + r`, `0 <= r < NANOS_PER_SEC`).
fn split_instant(t: i128) -> (qr: (i128, i128))
    ensures
        qr.0 == t / 1_000_000_000,
        qr.1 == t % 1_000_000_000,
        0 <= qr.1 < 1_000_000_000,
        t == qr.0 * 1_000_000_000 + qr.1,
{
    let b: u128 = 1_000_000_000;
    if t >= 0 {
        let u = t as u128;
        let q = u / b;
        let r = u % b;
        proof {
            lemma_fundamental_div_mod(u as int, 1_000_000_000);
            assert(q <= u);
            lemma_fundamental_div_mod_converse(t as int, 1_000_000_000, q as int, r as int);
        }
        (q as i128, r as i128)
    } else {
        let m: u128 = (-(t + 1)) as u128;
        let qm = m / b;
        let rm = m % b;
        proof {
            lemma_fundamental_div_mod(m as int, 1_000_000_000);
            assert(qm <= m);
        }
        let q: i128 = -(qm as i128) - 1;
        let r: i128 = 999_999_999 - (rm as i128);
        proof {
            assert(t == q * 1_000_000_000 + r) by (nonlinear_arith)
                requires
                    m == qm * 1_000_000_000 + rm,
                    t == -(m + 1),
                    q == -qm - 1,
                    r == 999_999_999 - rm,
            ;
            lemma_fundamental_div_mod_converse(t as int, 1_000_000_000, q as int, r as int);
        }
        (q, r)
    }
}

/// An instant as whole seconds and nanoseconds; see `parts_spec`.
pub fn instant_parts(t: i128) -> (r: Option<(i64, u32)>)
    ensures
        r == parts_spec(t as int),
{
    let (q, rem) = split_instant(t);
    if q < i64::MIN as i128 || q > i64::MAX as i128 {
        None
    } else {
        Some((q as i64, rem as u32))
    }
}

/// The system clock (`std::time::SystemTime::now`) as a chrono
/// `DateTime<Utc>` (its `From<SystemTime>` conversion, which also takes a
/// clock set before 1970), as whole seconds and the nanoseconds past them.
/// Nothing is promised of the value: it is whatever the system clock reads.
/// The conversion fails only for a clock beyond chrono's range of about
/// 262,000 years either side of the epoch.
#[verifier::external_body]
fn now_parts() -> (r: (i64, u32)) {
    let t = chrono::DateTime::<chrono::Utc>::from(std::time::SystemTime::now());
    (t.timestamp(), t.timestamp_subsec_nanos())
}

/// The current instant. Nothing is promised of the value: it is whatever
/// the system clock reads.
pub fn now_instant() -> (t: i128) {
    let (secs, nanos) = now_parts();
    instant_of(secs, nanos)
}

/// What chrono's `DateTime<Utc>` parser makes of a text, as whole seconds
/// and the nanoseconds past them, or `None` where it rejects the text.
pub uninterp spec fn rfc3339_parts(s: Seq<char>) -> Option<(i64, u32)>;

/// chrono's `str::parse::<DateTime<Utc>>` (a relaxed RFC 3339), then the
/// instant's `timestamp` and `timestamp_subsec_nanos`. The result is named,
/// not described: it depends on the text alone.
#[verifier::external_body]
fn parse_parts(s: &str) -> (r: Option<(i64, u32)>)
    ensures
        r == rfc3339_parts(s@),
{
    match s.parse::<chrono::DateTime<chrono::Utc>>() {
        Ok(t) => Some((t.timestamp(), t.timestamp_subsec_nanos())),
        Err(_) => None,
    }
}

/// The instant a text stands for, as chrono parses it.
pub open spec fn parsed_instant(s: Seq<char>) -> Option<i128> {
    match rfc3339_parts(s) {
        Some(p) => Some(instant_spec(p.0, p.1) as i128),
        None => None,
    }
}

/// The instant a text stands for, or `None` where chrono rejects it.
pub fn parse_timestamp(s: &str) -> (r: Option<i128>)
    ensures
        r == parsed_instant(s@),
{
    match parse_parts(s) {
        Some((secs, nanos)) => Some(instant_of(secs, nanos)),
        None => None,
    }
}

/// chrono's RFC 3339 rendering of the instant `secs` seconds and `nanos`
/// nanoseconds after the epoch, or `None` where chrono cannot represent it.
pub uninterp spec fn rfc3339_text(secs: i64, nanos: u32) -> Option<Seq<char>>;

/// chrono's `DateTime::from_timestamp` then `to_rfc3339`. The text is
/// named, not described: it depends on the instant alone.
#[verifier::external_body]
fn format_parts(secs: i64, nanos: u32) -> (r: Option<String>)
    ensures
        opt_text(r) == rfc3339_text(secs, nanos),
{
    match chrono::DateTime::from_timestamp(secs, nanos) {
        Some(t) => Some(t.to_rfc3339()),
        None => None,
    }
}

pub open spec fn opt_text(o: Option<String>) -> Option<Seq<char>> {
    match o {
        Some(s) => Some(s@),
        None => None,
    }
}

/// The RFC 3339 rendering of an instant, where chrono can represent it.
pub open spec fn instant_text(t: i128) -> Option<Seq<char>> {
    match parts_spec(t as int) {
        Some(p) => rfc3339_text(p.0, p.1),
        None => None,
    }
}

/// The RFC 3339 rendering of an instant; see `instant_text`.
pub fn format_timestamp(t: i128) -> (r: Option<String>)
    ensures
        opt_text(r) == instant_text(t),
{
    match instant_parts(t) {
        Some((secs, nanos)) => format_parts(secs, nanos),
        None => None,
    }
}

/// Whole seconds from `from` to `to`, truncated toward zero (what chrono's
/// `TimeDelta::num_seconds` gives for the difference).
pub open spec fn seconds_between(from: i128, to: i128) -> int {
    let d = to - from;
    if d >= 0 {
        d / 1_000_000_000
    } else {
        -((-d) / 1_000_000_000)
    }
}

/// Whole seconds from `from` to `to`; see `seconds_between`.
pub fn elapsed_seconds(from: i128, to: i128) -> (r: i128)
    ensures
        r == seconds_between(from, to),
{
    let (q1, r1) = split_instant(to);
    let (q2, r2) = split_instant(from);
    proof {
        assert(-170141183460469231731687303715884106 <= q1 <= 170141183460469231731687303715884106) by (nonlinear_arith)
            requires
                to == q1 * 1_000_000_000 + r1,
                0 <= r1 < 1_000_000_000,
                -170141183460469231731687303715884105728 <= to <= 170141183460469231731687303715884105727,
        ;
        assert(-170141183460469231731687303715884106 <= q2 <= 170141183460469231731687303715884106) by (nonlinear_arith)
            requires
                from == q2 * 1_000_000_000 + r2,
                0 <= r2 < 1_000_000_000,
                -170141183460469231731687303715884105728 <= from <= 170141183460469231731687303715884105727,
        ;
    }
    let dq: i128 = q1 - q2;
    let dr: i128 = r1 - r2;
    proof {
        assert(to - from == dq * 1_000_000_000 + dr) by (nonlinear_arith)
            requires
                to == q1 * 1_000_000_000 + r1,
                from == q2 * 1_000_000_000 + r2,
                dq == q1 - q2,
                dr == r1 - r2,
        ;
    }
    if to >= from {
        if dr < 0 {
            proof {
                lemma_fundamental_div_mod_converse(
                    to - from,
                    1_000_000_000,
                    dq - 1,
                    dr + 1_000_000_000,
                );
            }
            dq - 1
        } else {
            proof {
                lemma_fundamental_div_mod_converse(to - from, 1_000_000_000, dq as int, dr as int);
            }
            dq
        }
    } else {
        if dr > 0 {
            proof {
                lemma_fundamental_div_mod_converse(
                    from - to,
                    1_000_000_000,
                    -dq - 1,
                    1_000_000_000 - dr,
                );
            }
            dq + 1
        } else {
            proof {
                lemma_fundamental_div_mod_converse(from - to, 1_000_000_000, -dq, -dr);
            }
            dq
        }
    }
}

pub const SLEEP_WAKE_THRESHOLD_SECS: i64 = 90;

/// A wall-clock gap this large between reconciles means the process was
/// almost certainly suspended rather than just busy.
pub fn is_wake_gap(last: i128, now: i128) -> (r: bool)
    ensures
        r == (seconds_between(last, now) > SLEEP_WAKE_THRESHOLD_SECS),
{
    elapsed_seconds(last, now) > SLEEP_WAKE_THRESHOLD_SECS as i128
}

/// How much longer to wait before a watcher-triggered reconcile, given the
/// time elapsed since the last one and the minimum spacing (nanoseconds).
/// `None` means proceed immediately.
pub fn watcher_reconcile_delay(elapsed: u128, min_spacing: u128) -> (r: Option<u128>)
    ensures
        r == (if elapsed < min_spacing {
            Some((min_spacing - elapsed) as u128)
        } else {
            None::<u128>
        }),
{
    if elapsed < min_spacing {
        Some(min_spacing - elapsed)
    } else {
        None
    }
}

} // verus!
