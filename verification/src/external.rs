//! The calls this library makes into std and outside crates, each behind
//! one trusted item whose contract states what the callee's documentation
//! or source promises.

use vstd::prelude::*;
use chrono::Datelike;
use chrono::Timelike;
use chrono::TimeZone;
use crate::types::is_random_uuid;
use crate::text::utf8_len_below_u32_max;

verus! {

/// `std::time::Instant`, carried through the library as an opaque value.
#[verifier::external_type_specification]
#[verifier::external_body]
pub struct ExInstant(std::time::Instant);

/// `std::time::SystemTime`, carried through the library as an opaque value.
#[verifier::external_type_specification]
#[verifier::external_body]
pub struct ExSystemTime(std::time::SystemTime);

/// What `str::to_lowercase` returns for a string: its Unicode lowercase
/// mapping (the `Lowercase` derived property, with the final-sigma rule).
pub uninterp spec fn lowercase(s: Seq<char>) -> Seq<char>;

/// What `glob_match::glob_match(glob, path)` returns: whether `path`
/// matches the glob pattern `glob` (`*`, `**`, `?`, `[..]`, `{a,b}`, `!`).
pub uninterp spec fn glob_matches(glob: Seq<char>, path: Seq<char>) -> bool;

/// Calls `str::to_lowercase`. Claims only that the result is a function of
/// the input's characters, named `lowercase`.
#[verifier::external_body]
pub(crate) fn to_lowercase(s: &str) -> (r: String)
    ensures
        r@ == lowercase(s@),
{
    s.to_lowercase()
}

/// Calls `glob_match::glob_match(glob, path)`. Claims only that the answer
/// is a function of the two strings' characters, named `glob_matches`.
/// The crate's source reports malformed patterns as `false` and guards its
/// indexing, but keeps the pattern and path positions of its last wildcard
/// in `u32` fields: a path of `u32::MAX` bytes or more overflows one (a
/// panic in builds with overflow checks), and a pattern of 2^32 bytes or
/// more truncates the saved position, after which backtracking can loop
/// forever. Both strings are therefore required to be shorter than
/// `u32::MAX` bytes.
#[verifier::external_body]
pub(crate) fn glob_match(glob: &str, path: &str) -> (r: bool)
    requires
        utf8_len_below_u32_max(glob@),
        utf8_len_below_u32_max(path@),
    ensures
        r == glob_matches(glob@, path@),
{
    glob_match::glob_match(glob, path)
}

/// Calls `<String as FromIterator<char>>::from_iter` on the characters of
/// `v`. Claims that the string holds exactly those characters, in order.
#[verifier::external_body]
pub(crate) fn string_from_chars(v: &Vec<char>) -> (r: String)
    ensures
        r@ == v@,
{
    v.iter().collect()
}

/// Calls `std::time::SystemTime::now()`. Nothing is claimed of the value.
#[verifier::external_body]
pub(crate) fn system_time_now() -> (r: std::time::SystemTime) {
    std::time::SystemTime::now()
}

/// Calls `SystemTime::duration_since(UNIX_EPOCH)` on `t`: the time since
/// the Unix epoch, or `None` where `t` lies before it (the call's `Err`).
/// The value depends on `t`, which Verus cannot see into; nothing more is
/// claimed of it.
#[verifier::external_body]
pub(crate) fn duration_since_epoch(t: &std::time::SystemTime) -> (r: Option<std::time::Duration>) {
    match t.duration_since(std::time::UNIX_EPOCH) {
        Ok(d) => Some(d),
        Err(_) => None,
    }
}

/// Calls `Duration::as_secs`: the whole seconds of `d`. `Duration` is
/// opaque to Verus; nothing is claimed of the value.
#[verifier::external_body]
pub(crate) fn duration_secs(d: &std::time::Duration) -> (r: u64) {
    d.as_secs()
}

/// Calls `chrono::Local.timestamp_opt(unix_secs, 0)` and, for its `Single`
/// result, reports the local day of the week as `num_days_from_monday`
/// (0 for Monday) and the time of day as `num_seconds_from_midnight`; its
/// other results give `None`. chrono documents that `timestamp_opt` gives
/// `None` only for a timestamp outside its range (which reaches far beyond
/// the year 9999) and `Single` otherwise; `Some` is claimed up to the end
/// of the year 9999. The values depend on the machine's time zone; only
/// their documented ranges are claimed. Not ruled out: chrono's lookup in
/// the machine's time-zone data panics (`expect`) if that data gives no
/// local time type for the instant; that is the state of the machine,
/// which no `requires` can express, and every local-time conversion of
/// chrono goes through it.
#[verifier::external_body]
pub(crate) fn local_day_and_seconds(unix_secs: i64) -> (r: Option<(u32, u32)>)
    requires
        0 <= unix_secs,
    ensures
        unix_secs <= 253_402_300_799 ==> r is Some,
        r matches Some(v) ==> v.0 < 7 && v.1 < 86400,
{
    match chrono::Local.timestamp_opt(unix_secs, 0) {
        chrono::MappedLocalTime::Single(t) => Some(
            (t.weekday().num_days_from_monday(), t.num_seconds_from_midnight()),
        ),
        chrono::MappedLocalTime::Ambiguous(_, _) => None,
        chrono::MappedLocalTime::None => None,
    }
}

/// Calls `std::time::Instant::now()`. Nothing is claimed of the value.
#[verifier::external_body]
pub(crate) fn instant_now() -> (r: std::time::Instant) {
    std::time::Instant::now()
}

/// Calls `Instant::elapsed` on `since`. The value depends on the clock;
/// nothing is claimed of it.
#[verifier::external_body]
pub(crate) fn instant_elapsed(since: &std::time::Instant) -> (r: std::time::Duration) {
    since.elapsed()
}

/// Calls `Duration::as_nanos`: the whole nanoseconds of `d`. `Duration` is
/// opaque to Verus; nothing is claimed of the value.
#[verifier::external_body]
pub(crate) fn duration_nanos(d: &std::time::Duration) -> (r: u128) {
    d.as_nanos()
}

/// Calls `uuid::Uuid::new_v4()` and reports the identifier as a `u128`
/// (`as_u128`, the big-endian reading of its bytes). `new_v4` masks random
/// bits and sets the version nibble to 4 and the variant bits to `10`; that
/// is all that is claimed of the value, the other 122 bits being random.
#[verifier::external_body]
pub(crate) fn random_id() -> (r: u128)
    ensures
        is_random_uuid(r),
{
    uuid::Uuid::new_v4().as_u128()
}

} // verus!
