//! Master server configuration for heartbeat announcements.

use vstd::prelude::*;

use crate::text::owned;

verus! {

/// The characters of each string of a list.
pub open spec fn strings_view(v: Seq<String>) -> Seq<Seq<char>> {
    v.map_values(|s: String| s@)
}

/// Copies a list of strings.
pub fn copy_strings(v: &Vec<String>) -> (r: Vec<String>)
    ensures
        strings_view(r@) == strings_view(v@),
{
    let mut r: Vec<String> = Vec::new();
    let mut i: usize = 0;
    while i < v.len()
        invariant
            i <= v@.len(),
            r@.len() == i,
            forall|k: int| 0 <= k < i ==> #[trigger] r@[k]@ == v@[k]@,
        decreases v@.len() - i,
    {
        r.push(v[i].clone());
        i = i + 1;
    }
    assert(strings_view(r@) =~= strings_view(v@));
    r
}

/// Configuration for announcing this server to a master server.
#[derive(Debug, Clone)]
pub struct MasterConfig {
    /// Whether master server announcement is enabled
    pub enabled: bool,
    /// Master server URL (e.g., "http://localhost:8080")
    pub url: String,
    /// Server display name
    pub name: String,
    /// Geographic region (e.g., "eu-west", "us-east")
    pub region: String,
    /// Server tags for filtering (e.g., ["competitive", "casual"])
    pub tags: Vec<String>,
    /// Game modes supported (e.g., ["ffa", "ctf", "tdm"])
    pub game_modes: Vec<String>,
    /// Heartbeat interval in seconds (default: 20)
    pub heartbeat_interval_secs: u64,
}

/// The contents of a [`MasterConfig`].
pub struct MasterConfigView {
    pub enabled: bool,
    pub url: Seq<char>,
    pub name: Seq<char>,
    pub region: Seq<char>,
    pub tags: Seq<Seq<char>>,
    pub game_modes: Seq<Seq<char>>,
    pub heartbeat_interval_secs: u64,
}

impl View for MasterConfig {
    type V = MasterConfigView;

    open spec fn view(&self) -> MasterConfigView {
        MasterConfigView {
            enabled: self.enabled,
            url: self.url@,
            name: self.name@,
            region: self.region@,
            tags: strings_view(self.tags@),
            game_modes: strings_view(self.game_modes@),
            heartbeat_interval_secs: self.heartbeat_interval_secs,
        }
    }
}

/// The default configuration: announcing disabled, no URL, the name "Plix
/// Server", an unknown region, no tags, the "ffa" mode and a 20 second heartbeat.
pub open spec fn default_master_config() -> MasterConfigView {
    MasterConfigView {
        enabled: false,
        url: Seq::empty(),
        name: "Plix Server"@,
        region: "unknown"@,
        tags: Seq::empty(),
        game_modes: seq!["ffa"@],
        heartbeat_interval_secs: 20,
    }
}

impl MasterConfig {
    /// The default configuration (announcing disabled).
    pub fn default_config() -> (c: MasterConfig)
        ensures
            c@ == default_master_config(),
    {
        let mut game_modes: Vec<String> = Vec::new();
        game_modes.push(owned("ffa"));
        let tags: Vec<String> = Vec::new();
        let c = MasterConfig {
            enabled: false,
            url: String::new(),
            name: owned("Plix Server"),
            region: owned("unknown"),
            tags,
            game_modes,
            heartbeat_interval_secs: 20,
        };
        assert(c@.tags =~= Seq::<Seq<char>>::empty());
        assert(c@.game_modes =~= seq!["ffa"@]);
        c
    }

    /// Create a new master config with the specified URL and name, enabled,
    /// and defaults for the rest.
    pub fn new(url: &str, name: &str) -> (c: MasterConfig)
        ensures
            c@ == (MasterConfigView { enabled: true, url: url@, name: name@, ..default_master_config() }),
    {
        let d = Self::default_config();
        MasterConfig { enabled: true, url: owned(url), name: owned(name), ..d }
    }

    /// Set the region.
    pub fn with_region(self, region: &str) -> (c: MasterConfig)
        ensures
            c@ == (MasterConfigView { region: region@, ..self@ }),
    {
        MasterConfig { region: owned(region), ..self }
    }

    /// Set the tags.
    pub fn with_tags(self, tags: Vec<String>) -> (c: MasterConfig)
        ensures
            c@ == (MasterConfigView { tags: strings_view(tags@), ..self@ }),
    {
        MasterConfig { tags, ..self }
    }

    /// Set the game modes.
    pub fn with_game_modes(self, game_modes: Vec<String>) -> (c: MasterConfig)
        ensures
            c@ == (MasterConfigView { game_modes: strings_view(game_modes@), ..self@ }),
    {
        MasterConfig { game_modes, ..self }
    }
}

/// Whether the heartbeat task should announce the server, and if not, why.
#[derive(Debug, Clone, Copy, PartialEq, Eq, Structural)]
pub enum AnnounceDecision {
    /// Announcing is disabled in the configuration.
    Disabled,
    /// Announcing is enabled but no master server URL is configured.
    MissingUrl,
    /// Announce to the configured master server.
    Announce,
}

impl MasterConfig {
    /// What the heartbeat task does with this configuration: nothing when
    /// announcing is disabled, nothing (with a warning) when the URL is empty,
    /// and announce otherwise.
    pub fn announce_decision(&self) -> (d: AnnounceDecision)
        ensures
            d == (if !self@.enabled {
                AnnounceDecision::Disabled
            } else if self@.url.len() == 0 {
                AnnounceDecision::MissingUrl
            } else {
                AnnounceDecision::Announce
            }),
    {
        if !self.enabled {
            AnnounceDecision::Disabled
        } else if self.url.as_str().is_empty() {
            AnnounceDecision::MissingUrl
        } else {
            AnnounceDecision::Announce
        }
    }
}

impl Default for MasterConfig {
    fn default() -> (c: MasterConfig)
        ensures
            c@ == default_master_config(),
    {
        Self::default_config()
    }
}

} // verus!
