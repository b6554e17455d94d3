//! Version checking against the package registry.
//!
//! At startup a background check is started when updates are wanted and the
//! cached result is missing or older than a day; it stores the latest
//! published version with the time of the check. At exit the cached result,
//! if still fresh and newer than the running version, yields an upgrade
//! banner. This module holds the decisions; fetching, the cache file and the
//! clock are the caller's.

use vstd::prelude::*;
use crate::text::{chars_of, push_rep, push_str, rep, string_from_chars};

verus! {

/// Seconds after which a cached check is stale (24 hours).
pub const CACHE_STALE_SECS: u64 = 86400;

/// Package name shown in the upgrade banner.
pub const CRATE_NAME: &'static str = "markdown-tui-explorer";

/// Outcome of a completed version check, as cached between sessions.
#[derive(Clone, Debug)]
pub struct VersionCheckCache {
    /// Unix timestamp (seconds) when the check was performed.
    pub checked_at: u64,
    /// Latest non-yanked version reported by the registry (e.g. `"1.34.50"`).
    pub latest_version: String,
}

#[verifier::external_type_specification]
#[verifier::external_body]
pub struct ExSemverVersion(semver::Version);

/// The fields of a semantic version: major, minor, patch, pre-release and
/// build metadata.
pub type VersionFields = (u64, u64, u64, Seq<char>, Seq<char>);

/// What `semver::Version::parse` gives for a text: the version's fields, or
/// nothing when the text is not a semantic version.
pub uninterp spec fn semver_parse(text: Seq<char>) -> Option<(u64, u64, u64, Seq<char>, Seq<char>)>;

/// Whether one version is greater than another in `semver::Version`'s order.
pub uninterp spec fn semver_greater(a: (u64, u64, u64, Seq<char>, Seq<char>), b: (u64, u64, u64, Seq<char>, Seq<char>)) -> bool;

/// Major, minor and patch of `a` come lexicographically after those of `b`.
pub open spec fn release_greater(a: VersionFields, b: VersionFields) -> bool {
    a.0 > b.0 || (a.0 == b.0 && (a.1 > b.1 || (a.1 == b.1 && a.2 > b.2)))
}

/// A parsed semantic version.
pub struct SemVersion {
    major: u64,
    minor: u64,
    patch: u64,
    pre: String,
    build: String,
    parsed: semver::Version,
}

impl SemVersion {
    /// The version's fields.
    pub closed spec fn fields(&self) -> VersionFields {
        (self.major, self.minor, self.patch, self.pre@, self.build@)
    }
}

/// Parse a semantic version with `semver::Version::parse`; `None` when the
/// text is not one. The contract names the result `semver_parse`.
#[verifier::external_body]
fn parse_version(text: &str) -> (r: Option<SemVersion>)
    ensures
        match r {
            Some(v) => semver_parse(text@) == Some(v.fields()),
            None => semver_parse(text@) is None,
        },
{
    match semver::Version::parse(text) {
        Ok(v) => Some(SemVersion {
            major: v.major,
            minor: v.minor,
            patch: v.patch,
            pre: v.pre.as_str().to_string(),
            build: v.build.as_str().to_string(),
            parsed: v,
        }),
        Err(_) => None,
    }
}

/// `a > b` in the order of `semver::Version`. That order is derived field by
/// field (major, minor, patch, pre-release, build), so versions that differ
/// in major, minor or patch are ordered by those three, and a version is not
/// greater than itself. How pre-release and build metadata break a tie is
/// left to the name `semver_greater`.
#[verifier::external_body]
fn version_greater(a: &SemVersion, b: &SemVersion) -> (r: bool)
    ensures
        r == semver_greater(a.fields(), b.fields()),
        (a.fields().0, a.fields().1, a.fields().2) != (b.fields().0, b.fields().1, b.fields().2) ==> r
            == release_greater(a.fields(), b.fields()),
        a.fields() == b.fields() ==> !r,
{
    a.parsed > b.parsed
}

/// `candidate` is strictly newer than `current`: both parse as semantic
/// versions and the first is greater. Malformed input is never newer.
pub open spec fn newer_spec(candidate: Seq<char>, current: Seq<char>) -> bool {
    match (semver_parse(candidate), semver_parse(current)) {
        (Some(a), Some(b)) => semver_greater(a, b),
        _ => false,
    }
}

/// Whether `candidate` is strictly newer than `current` in semver order.
/// Malformed strings are treated as "not newer".
pub fn is_newer(candidate: &str, current: &str) -> (r: bool)
    ensures
        r == newer_spec(candidate@, current@),
        semver_parse(candidate@) is None || semver_parse(current@) is None ==> !r,
        candidate@ == current@ ==> !r,
        (match (semver_parse(candidate@), semver_parse(current@)) {
            (Some(a), Some(b)) => (a.0, a.1, a.2) != (b.0, b.1, b.2) ==> r == release_greater(a, b),
            _ => true,
        }),
{
    let c = match parse_version(candidate) {
        Some(v) => v,
        None => {
            return false;
        },
    };
    let cur = match parse_version(current) {
        Some(v) => v,
        None => {
            return false;
        },
    };
    version_greater(&c, &cur)
}

/// A check made at `checked_at` is still fresh at `now`: less than a day
/// has passed (a clock that went backwards counts as no time passed).
pub open spec fn fresh_spec(now: u64, checked_at: u64) -> bool {
    (if now >= checked_at { now - checked_at } else { 0 }) < CACHE_STALE_SECS
}

/// Whether a check made at `checked_at` is still fresh at `now`.
pub fn is_fresh(now: u64, checked_at: u64) -> (r: bool)
    ensures
        r == fresh_spec(now, checked_at),
{
    now.saturating_sub(checked_at) < CACHE_STALE_SECS
}

/// A background check is due when updates are wanted and no fresh cached
/// result exists.
pub open spec fn check_due_spec(check_for_updates: bool, cache: Option<VersionCheckCache>, now: u64) -> bool {
    check_for_updates && !(match cache {
        Some(c) => fresh_spec(now, c.checked_at),
        None => false,
    })
}

/// Whether to start a background version check now.
pub fn background_check_due(check_for_updates: bool, cache: Option<&VersionCheckCache>, now: u64) -> (r: bool)
    ensures
        r == check_due_spec(
            check_for_updates,
            match cache {
                Some(c) => Some(*c),
                None => None,
            },
            now,
        ),
{
    if !check_for_updates {
        return false;
    }
    match cache {
        Some(c) => !is_fresh(now, c.checked_at),
        None => true,
    }
}

/// The latest version reported by the registry, unless it is empty.
pub fn accept_latest_version(max_version: String) -> (r: Option<String>)
    ensures
        max_version@.len() == 0 ==> r is None,
        max_version@.len() > 0 ==> r == Some(max_version),
{
    if max_version.as_str().is_empty() {
        None
    } else {
        Some(max_version)
    }
}

/// Horizontal rule framing the banner: 55 box-drawing dashes.
pub open spec fn banner_bar() -> Seq<char> {
    rep('\u{2500}', 55)
}

/// The upgrade banner for `current` when `latest` is available.
pub open spec fn banner_text(current: Seq<char>, latest: Seq<char>) -> Seq<char> {
    seq!['\n'] + banner_bar() + seq!['\n', ' '] + CRATE_NAME@ + seq![' '] + current + " \u{2192} "@ + latest
        + " available\n\n Upgrade with:\n   cargo install "@ + CRATE_NAME@
        + "\n Or download a pre-built binary:\n   https://github.com/leboiko/markdown-reader/releases/latest\n"@
        + banner_bar()
}

/// The banner to print at exit: shown when updates are wanted, a cached
/// result exists and is fresh, and its version is strictly newer than the
/// running one.
pub open spec fn notice_spec(
    current: Seq<char>,
    check_for_updates: bool,
    cache: Option<VersionCheckCache>,
    now: u64,
) -> Option<Seq<char>> {
    match cache {
        Some(c) => if check_for_updates && fresh_spec(now, c.checked_at) && newer_spec(c.latest_version@, current) {
            Some(banner_text(current, c.latest_version@))
        } else {
            None
        },
        None => None,
    }
}

fn banner(current: &str, latest: &str) -> (r: String)
    ensures
        r@ == banner_text(current@, latest@),
{
    let mut v: Vec<char> = Vec::new();
    v.push('\n');
    push_rep(&mut v, '\u{2500}', 55);
    v.push('\n');
    v.push(' ');
    push_str(&mut v, CRATE_NAME);
    v.push(' ');
    push_str(&mut v, current);
    push_str(&mut v, " \u{2192} ");
    push_str(&mut v, latest);
    push_str(&mut v, " available\n\n Upgrade with:\n   cargo install ");
    push_str(&mut v, CRATE_NAME);
    push_str(&mut v, "\n Or download a pre-built binary:\n   https://github.com/leboiko/markdown-reader/releases/latest\n");
    push_rep(&mut v, '\u{2500}', 55);
    assert(v@ =~= banner_text(current@, latest@));
    string_from_chars(v.as_slice())
}

/// The upgrade banner to print at exit, if any.
pub fn upgrade_notice(
    current_version: &str,
    check_for_updates: bool,
    cache: Option<&VersionCheckCache>,
    now: u64,
) -> (r: Option<String>)
    ensures
        match notice_spec(
            current_version@,
            check_for_updates,
            match cache {
                Some(c) => Some(*c),
                None => None,
            },
            now,
        ) {
            Some(t) => r matches Some(s) && s@ == t,
            None => r is None,
        },
{
    if !check_for_updates {
        return None;
    }
    let c = match cache {
        Some(c) => c,
        None => {
            return None;
        },
    };
    if !is_fresh(now, c.checked_at) {
        return None;
    }
    if is_newer(c.latest_version.as_str(), current_version) {
        Some(banner(current_version, c.latest_version.as_str()))
    } else {
        None
    }
}

/// A banner is only shown from a fresh cache, so whenever one is due at
/// exit no background check would be started at that moment.
pub proof fn notice_implies_check_not_due(
    current: Seq<char>,
    check_for_updates: bool,
    cache: Option<VersionCheckCache>,
    now: u64,
)
    requires
        notice_spec(current, check_for_updates, cache, now) is Some,
    ensures
        !check_due_spec(check_for_updates, cache, now),
{
}

/// Nothing is shown or fetched when update checks are switched off.
pub proof fn disabled_checks_do_nothing(current: Seq<char>, cache: Option<VersionCheckCache>, now: u64)
    ensures
        notice_spec(current, false, cache, now) is None,
        !check_due_spec(false, cache, now),
{
}

} // verus!
