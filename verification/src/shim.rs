//! Trusted bindings to the outside libraries the engine leans on: the
//! skim-style fuzzy scorer, Unicode case folding, string collection and the
//! wall clock.  Each item's contract states only what the outside source or
//! documentation shows; everything downstream is verified against it.

use fuzzy_matcher::skim::SkimMatcherV2;
use fuzzy_matcher::FuzzyMatcher;
use vstd::prelude::*;

verus! {

/// The case-folded form of `s`, as `str::to_lowercase` computes it.  The
/// result is a function of the characters alone.
pub uninterp spec fn lower_of(s: Seq<char>) -> Seq<char>;

/// Relies on `str::to_lowercase`: returns the Unicode-lowercased text, a
/// pure function of the input characters; an empty input stays empty.
#[verifier::external_body]
pub fn to_lowercase(s: &str) -> (r: String)
    ensures
        r@ == lower_of(s@),
        s@.len() == 0 ==> r@.len() == 0,
{
    s.to_lowercase()
}

/// The score that a freshly built `SkimMatcherV2` in smart-case
/// configuration assigns to `choice` against `pattern`: `None` when the
/// pattern's characters do not occur in order in the choice, otherwise the
/// subsequence-alignment score.  On a fresh matcher the per-instance
/// thread-local score buffers start empty, so every matrix cell the scorer
/// reads holds either its default or a value written during this call, and
/// the result is a function of the two texts.
pub uninterp spec fn fuzzy_of(choice: Seq<char>, pattern: Seq<char>) -> Option<i64>;

/// Relies on `SkimMatcherV2::default`, `ignore_case`, `smart_case` and
/// `FuzzyMatcher::fuzzy_match`: scores with a matcher built fresh for this
/// call, which makes the score deterministic in `(choice, pattern)` — a
/// long-lived matcher reuses score-matrix cells an earlier call on the
/// same thread wrote, and the cache-off configuration replaces a buffer it
/// still holds borrowed, so neither may stand behind `fuzzy_of`.  The
/// score is computed in `i32` before widening, so any returned value fits
/// `i32`.
#[verifier::external_body]
pub fn fuzzy_match_score(choice: &str, pattern: &str) -> (r: Option<i64>)
    ensures
        r == fuzzy_of(choice@, pattern@),
        r matches Some(v) ==> i32::MIN <= v <= i32::MAX,
{
    let matcher = SkimMatcherV2::default().ignore_case().smart_case();
    matcher.fuzzy_match(choice, pattern)
}

/// Relies on `String`'s `FromIterator<char>`: collects exactly the given
/// characters, in order.
#[verifier::external_body]
pub fn string_from_chars(v: &Vec<char>) -> (r: String)
    ensures
        r@ == v@,
{
    v.iter().collect()
}

/// Relies on `time::OffsetDateTime::now_utc` and `unix_timestamp`: reads the
/// wall clock; nothing is assumed of the value.
#[verifier::external_body]
pub fn now_unix_seconds() -> i64 {
    time::OffsetDateTime::now_utc().unix_timestamp()
}

/// Timestamps within this bound of zero are safely convertible to civil
/// time in any offset.
pub const CIVIL_RANGE: i64 = 135_000_000_000;

/// Relies on `time::OffsetDateTime::from_unix_timestamp`, `to_offset`,
/// `UtcOffset::current_local_offset` and the component getters: the civil
/// year, month, day, hour and minute of `t` in the machine's local offset
/// (UTC when it cannot be determined).  The offset is machine state, so
/// only the documented component ranges are assumed.
#[verifier::external_body]
pub fn civil_local(t: i64) -> (r: (i32, u8, u8, u8, u8))
    requires
        -CIVIL_RANGE <= t <= CIVIL_RANGE,
    ensures
        -9999 <= r.0 <= 9999 && 1 <= r.1 <= 12 && 1 <= r.2 <= 31 && r.3 < 24 && r.4 < 60,
{
    let dt = time::OffsetDateTime::from_unix_timestamp(t).unwrap_or(
        time::OffsetDateTime::UNIX_EPOCH,
    );
    let off = time::UtcOffset::current_local_offset().unwrap_or(time::UtcOffset::UTC);
    let d = dt.to_offset(off);
    (d.year(), d.month() as u8, d.day(), d.hour(), d.minute())
}

} // verus!
