//! Performance report metadata: what identifies a profiling run.

use vstd::prelude::*;

use crate::clock::unix_time_now;
use crate::text::owned;

verus! {

/// The RFC 3339 text that chrono writes for the UTC time `secs` seconds and
/// `nanos` nanoseconds after the Unix epoch, or `None` where chrono holds that
/// time out of its range.
pub uninterp spec fn rfc3339_utc(secs: i64, nanos: u32) -> Option<Seq<char>>;

/// The text held by an optional string.
pub open spec fn text_of(o: Option<String>) -> Option<Seq<char>> {
    match o {
        Some(s) => Some(s@),
        None => None,
    }
}

/// Calls `chrono::DateTime::<Utc>::from_timestamp` and renders the time it gives
/// with `DateTime::to_rfc3339` (text such as `1996-12-19T16:39:57+00:00`).
/// `from_timestamp` returns `None` for a time out of chrono's range; the text is a
/// function of the two numbers alone, and it always holds the date, so it is not
/// empty.
#[verifier::external_body]
fn render_unix_time(secs: i64, nanos: u32) -> (r: Option<String>)
    ensures
        text_of(r) == rfc3339_utc(secs, nanos),
        r matches Some(s) ==> s@.len() > 0,
{
    match chrono::DateTime::<chrono::Utc>::from_timestamp(secs, nanos) {
        Some(d) => Some(d.to_rfc3339()),
        None => None,
    }
}

/// The timestamp text of a run for what the rendering gave: the rendered text,
/// or "unknown" when there is none.
pub fn timestamp_text(rendered: Option<String>) -> (t: String)
    ensures
        t@ == (match rendered {
            Some(s) => s@,
            None => "unknown"@,
        }),
{
    match rendered {
        Some(s) => s,
        None => owned("unknown"),
    }
}

/// The timestamp text of a wall-clock reading given as whole seconds and
/// nanoseconds since the Unix epoch: its RFC 3339 rendering, or "unknown" when
/// there is no reading, the seconds do not fit an `i64`, or chrono cannot render
/// the time.
pub fn render_timestamp(now: Option<(u64, u32)>) -> (t: String)
    ensures
        t@ == (match now {
            Some((secs, nanos)) => if secs <= i64::MAX {
                match rfc3339_utc(secs as i64, nanos) {
                    Some(text) => text,
                    None => "unknown"@,
                }
            } else {
                "unknown"@
            },
            None => "unknown"@,
        }),
        t@.len() > 0,
{
    proof {
        reveal_strlit("unknown");
    }
    let rendered = match now {
        Some((secs, nanos)) => if secs <= i64::MAX as u64 {
            render_unix_time(secs as i64, nanos)
        } else {
            None
        },
        None => None,
    };
    timestamp_text(rendered)
}

/// Report metadata for reproducibility
#[derive(Debug, Clone)]
pub struct Metadata {
    /// ISO 8601 timestamp of run start
    pub timestamp: String,
    /// Git commit hash, when known
    pub git_sha: Option<String>,
    /// Build mode (debug/release)
    pub build_mode: String,
    /// Scenario name
    pub scenario: String,
    /// Duration in seconds
    pub duration_secs: u32,
    /// Configured tick rate
    pub tick_rate: u8,
    /// Number of players
    pub player_count: Option<u32>,
}

impl Metadata {
    /// Metadata of a run with everything given.
    pub fn describe(
        timestamp: String,
        git_sha: Option<String>,
        build_mode: &str,
        scenario: &str,
        duration_secs: u32,
        tick_rate: u8,
    ) -> (m: Metadata)
        ensures
            m.timestamp == timestamp,
            m.git_sha == git_sha,
            m.build_mode@ == build_mode@,
            m.scenario@ == scenario@,
            m.duration_secs == duration_secs,
            m.tick_rate == tick_rate,
            m.player_count is None,
    {
        Metadata {
            timestamp,
            git_sha,
            build_mode: owned(build_mode),
            scenario: owned(scenario),
            duration_secs,
            tick_rate,
            player_count: None,
        }
    }

    /// Create metadata for a run starting now, stamped with the wall-clock time in
    /// RFC 3339 form ("unknown" when the clock reads before the epoch). The commit and build mode are
    /// not known here: the commit is left out and the build mode is "unknown";
    /// [`Metadata::with_git_sha`] and [`Metadata::with_build_mode`] fill them in.
    pub fn new(scenario: &str, duration_secs: u32, tick_rate: u8) -> (m: Metadata)
        ensures
            m.timestamp@.len() > 0,
            m.timestamp@ == "unknown"@ || exists|secs: i64, nanos: u32|
                rfc3339_utc(secs, nanos) == Some(m.timestamp@),
            m.git_sha is None,
            m.build_mode@ == "unknown"@,
            m.scenario@ == scenario@,
            m.duration_secs == duration_secs,
            m.tick_rate == tick_rate,
            m.player_count is None,
    {
        let timestamp = render_timestamp(unix_time_now());
        Self::describe(timestamp, None, "unknown", scenario, duration_secs, tick_rate)
    }

    /// Set player count
    pub fn with_player_count(self, count: u32) -> (m: Metadata)
        ensures
            m == (Metadata { player_count: Some(count), ..self }),
    {
        Metadata { player_count: Some(count), ..self }
    }

    /// Set the commit hash
    pub fn with_git_sha(self, sha: Option<String>) -> (m: Metadata)
        ensures
            m == (Metadata { git_sha: sha, ..self }),
    {
        Metadata { git_sha: sha, ..self }
    }

    /// Set the build mode
    pub fn with_build_mode(self, mode: &str) -> (m: Metadata)
        ensures
            m.build_mode@ == mode@,
            m == (Metadata { build_mode: m.build_mode, ..self }),
    {
        Metadata { build_mode: owned(mode), ..self }
    }
}

} // verus!
