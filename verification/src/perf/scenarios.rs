//! Performance test scenarios: reproducible workloads for profiling runs.

use vstd::prelude::*;

use crate::text::str_eq;

verus! {

/// The characters of `s` after `str::to_lowercase`, which applies the Unicode
/// lowercase mapping to every character.
pub uninterp spec fn spec_to_lowercase(s: Seq<char>) -> Seq<char>;

/// Calls `str::to_lowercase`. The result is a function of the characters of
/// `s` alone, named [`spec_to_lowercase`]; what the Unicode mapping does to
/// each character is not stated here.
#[verifier::external_body]
fn to_lowercase(s: &str) -> (r: String)
    ensures
        r@ == spec_to_lowercase(s@),
{
    s.to_lowercase()
}

/// Performance test scenario
#[derive(Debug, Clone, Copy, PartialEq, Eq, Structural)]
pub enum PerfScenario {
    /// Empty server with minimal world - baseline overhead measurement
    Idle,
    /// Rapid chunk loading/unloading with block edits - meshing stress test
    WorldChurn,
    /// Multiple simulated players with rapid movement - network bandwidth test
    NetStress,
}

/// The scenario a lowercase name designates.
pub open spec fn scenario_named(name: Seq<char>) -> Option<PerfScenario> {
    if name == "idle"@ {
        Some(PerfScenario::Idle)
    } else if name == "world_churn"@ || name == "worldchurn"@ {
        Some(PerfScenario::WorldChurn)
    } else if name == "net_stress"@ || name == "netstress"@ {
        Some(PerfScenario::NetStress)
    } else {
        None
    }
}

/// Scenario configuration
#[derive(Debug, Clone, Copy)]
pub struct ScenarioConfig {
    /// Scenario name
    pub name: &'static str,
    /// Human-readable description
    pub description: &'static str,
    /// Duration of the test, in nanoseconds
    pub duration: u64,
    /// Number of simulated players
    pub player_count: u32,
    /// Number of chunks to load
    pub chunk_count: u32,
    /// Block edits per second
    pub block_edits_per_sec: u32,
    /// Movement updates per second
    pub movement_updates_per_sec: u32,
}

impl PerfScenario {
    /// Parse scenario from a name that is already lowercase.
    pub fn from_lowercase(s: &str) -> (r: Option<PerfScenario>)
        ensures
            r == scenario_named(s@),
    {
        if str_eq(s, "idle") {
            Some(PerfScenario::Idle)
        } else if str_eq(s, "world_churn") || str_eq(s, "worldchurn") {
            Some(PerfScenario::WorldChurn)
        } else if str_eq(s, "net_stress") || str_eq(s, "netstress") {
            Some(PerfScenario::NetStress)
        } else {
            None
        }
    }

    /// Parse scenario from string, ignoring case
    pub fn from_str(s: &str) -> (r: Option<PerfScenario>)
        ensures
            r == scenario_named(spec_to_lowercase(s@)),
    {
        let lower = to_lowercase(s);
        Self::from_lowercase(lower.as_str())
    }

    /// The scenario name used in reports.
    pub open spec fn spec_name(self) -> Seq<char> {
        match self {
            PerfScenario::Idle => "idle"@,
            PerfScenario::WorldChurn => "world_churn"@,
            PerfScenario::NetStress => "net_stress"@,
        }
    }

    /// Get scenario name for reports
    pub fn name(&self) -> (s: &'static str)
        ensures
            s@ == self.spec_name(),
    {
        match self {
            PerfScenario::Idle => "idle",
            PerfScenario::WorldChurn => "world_churn",
            PerfScenario::NetStress => "net_stress",
        }
    }

    /// The human-readable description.
    pub open spec fn spec_description(self) -> Seq<char> {
        match self {
            PerfScenario::Idle => "Empty server with minimal world - baseline overhead"@,
            PerfScenario::WorldChurn => "Rapid chunk loading/unloading - meshing stress"@,
            PerfScenario::NetStress => "Multiple players with rapid movement - network bandwidth"@,
        }
    }

    /// Get human-readable description
    pub fn description(&self) -> (s: &'static str)
        ensures
            s@ == self.spec_description(),
    {
        match self {
            PerfScenario::Idle => "Empty server with minimal world - baseline overhead",
            PerfScenario::WorldChurn => "Rapid chunk loading/unloading - meshing stress",
            PerfScenario::NetStress => "Multiple players with rapid movement - network bandwidth",
        }
    }

    /// Get default duration for this scenario, in nanoseconds (one minute)
    pub fn default_duration(&self) -> (ns: u64)
        ensures
            ns == 60_000_000_000,
    {
        60_000_000_000
    }

    /// Get default player count for this scenario
    pub fn default_player_count(&self) -> (n: u32)
        ensures
            n == (if *self == PerfScenario::NetStress { 16u32 } else { 0u32 }),
    {
        match self {
            PerfScenario::Idle => 0,
            PerfScenario::WorldChurn => 0,
            PerfScenario::NetStress => 16,
        }
    }

    /// The workload of the scenario: (players, chunks, block edits per second,
    /// movement updates per second).
    pub open spec fn workload(self) -> (u32, u32, u32, u32) {
        match self {
            PerfScenario::Idle => (0, 1, 0, 0),
            PerfScenario::WorldChurn => (0, 100, 60, 0),
            PerfScenario::NetStress => (16, 10, 0, 960),
        }
    }

    /// Get scenario configuration: one minute of the scenario's workload.
    pub fn config(&self) -> (c: ScenarioConfig)
        ensures
            c.name@ == self.spec_name(),
            c.description@ == self.spec_description(),
            c.duration == 60_000_000_000,
            (c.player_count, c.chunk_count, c.block_edits_per_sec, c.movement_updates_per_sec)
                == self.workload(),
    {
        let (player_count, chunk_count, block_edits_per_sec, movement_updates_per_sec) = match self {
            PerfScenario::Idle => (0, 1, 0, 0),
            PerfScenario::WorldChurn => (0, 100, 60, 0),
            PerfScenario::NetStress => (16, 10, 0, 960),
        };
        ScenarioConfig {
            name: self.name(),
            description: self.description(),
            duration: self.default_duration(),
            player_count,
            chunk_count,
            block_edits_per_sec,
            movement_updates_per_sec,
        }
    }

    /// List all available scenarios
    pub fn all() -> (v: Vec<PerfScenario>)
        ensures
            v@ == seq![PerfScenario::Idle, PerfScenario::WorldChurn, PerfScenario::NetStress],
    {
        let mut v = Vec::new();
        v.push(PerfScenario::Idle);
        v.push(PerfScenario::WorldChurn);
        v.push(PerfScenario::NetStress);
        v
    }
}

impl ScenarioConfig {
    /// Get total actions per tick at 60 TPS
    pub fn actions_per_tick(&self) -> (n: u32)
        requires
            self.block_edits_per_sec + self.movement_updates_per_sec <= u32::MAX,
        ensures
            n == (self.block_edits_per_sec + self.movement_updates_per_sec) / 60,
    {
        let tps = 60u32;
        (self.block_edits_per_sec + self.movement_updates_per_sec) / tps
    }
}

/// What one tick of a scenario asks the server to simulate.
#[derive(Debug, Clone, Copy, PartialEq, Eq)]
pub enum TickPlan {
    /// Nothing this tick
    Nothing,
    /// Edit one block
    EditBlock { pos: [i32; 3], block_id: u8 },
    /// Move each of the first `count` players, at animation step `step`
    MovePlayers { count: u32, step: u64 },
}

/// The observable state of a [`ScenarioRunner`].
pub struct ScenarioRunnerView {
    pub scenario: PerfScenario,
    pub config: ScenarioConfig,
    pub elapsed: u64,
    pub actions_executed: u64,
}

/// Scenario runner state
#[derive(Debug)]
pub struct ScenarioRunner {
    scenario: PerfScenario,
    config: ScenarioConfig,
    elapsed: u64,
    actions_executed: u64,
}

impl View for ScenarioRunner {
    type V = ScenarioRunnerView;

    closed spec fn view(&self) -> ScenarioRunnerView {
        ScenarioRunnerView {
            scenario: self.scenario,
            config: self.config,
            elapsed: self.elapsed,
            actions_executed: self.actions_executed,
        }
    }
}

/// The remainder of `a` divided by `b`, with the sign of `a`, as Rust's `%` on
/// integers computes it.
pub open spec fn trunc_rem(a: int, b: int) -> int {
    if a >= 0 {
        a % b
    } else {
        -((-a) % b)
    }
}

/// The block edited by the churn scenario on step `n`: the step, truncated to
/// `i32`, picks the column (modulo 16) and the block (modulo 5, plus one).
pub open spec fn churn_edit(n: u64) -> TickPlan {
    let t = (n as i32) as int;
    TickPlan::EditBlock {
        pos: [trunc_rem(t, 16) as i32, 64, trunc_rem(t, 16) as i32],
        block_id: (trunc_rem(t, 5) + 1) as u8,
    }
}

/// The plan of a tick that is not past the end of the scenario.
pub open spec fn plan_for(v: ScenarioRunnerView) -> TickPlan {
    match v.scenario {
        PerfScenario::Idle => TickPlan::Nothing,
        PerfScenario::WorldChurn => if v.actions_executed % 60 < v.config.block_edits_per_sec as u64 {
            churn_edit(v.actions_executed)
        } else {
            TickPlan::Nothing
        },
        PerfScenario::NetStress => TickPlan::MovePlayers {
            count: v.config.player_count,
            step: v.actions_executed,
        },
    }
}

/// The block edited by the churn scenario on step `n`.
fn churn_edit_exec(n: u64) -> (p: TickPlan)
    ensures
        p == churn_edit(n),
{
    let t = #[verifier::truncate] (n as i32);
    let r16 = t % 16;
    let r5 = t % 5;
    let block = r5 + 1;
    assert(r16 == trunc_rem(t as int, 16));
    assert(r5 == trunc_rem(t as int, 5));
    let p = TickPlan::EditBlock { pos: [r16, 64, r16], block_id: #[verifier::truncate] (block as u8) };
    assert(p == churn_edit(n));
    p
}

impl ScenarioRunner {
    /// Create a new scenario runner
    pub fn new(scenario: PerfScenario) -> (r: ScenarioRunner)
        ensures
            r@.scenario == scenario,
            r@.config.name@ == scenario.spec_name(),
            r@.config.description@ == scenario.spec_description(),
            r@.config.duration == 60_000_000_000,
            (r@.config.player_count, r@.config.chunk_count, r@.config.block_edits_per_sec,
                r@.config.movement_updates_per_sec) == scenario.workload(),
            r@.elapsed == 0,
            r@.actions_executed == 0,
    {
        let config = scenario.config();
        ScenarioRunner { scenario, config, elapsed: 0, actions_executed: 0 }
    }

    /// Create with custom duration, in nanoseconds
    pub fn with_duration(scenario: PerfScenario, duration: u64) -> (r: ScenarioRunner)
        ensures
            r@.scenario == scenario,
            r@.config.name@ == scenario.spec_name(),
            r@.config.description@ == scenario.spec_description(),
            r@.config.duration == duration,
            (r@.config.player_count, r@.config.chunk_count, r@.config.block_edits_per_sec,
                r@.config.movement_updates_per_sec) == scenario.workload(),
            r@.elapsed == 0,
            r@.actions_executed == 0,
    {
        let mut config = scenario.config();
        config.duration = duration;
        ScenarioRunner { scenario, config, elapsed: 0, actions_executed: 0 }
    }

    /// Check if the scenario is complete
    pub fn is_complete(&self) -> (b: bool)
        ensures
            b == (self@.elapsed >= self@.config.duration),
    {
        self.elapsed >= self.config.duration
    }

    /// Get elapsed time, in nanoseconds
    pub fn elapsed(&self) -> (ns: u64)
        ensures
            ns == self@.elapsed,
    {
        self.elapsed
    }

    /// Get remaining time, in nanoseconds
    pub fn remaining(&self) -> (ns: u64)
        ensures
            ns == if self@.config.duration > self@.elapsed {
                (self@.config.duration - self@.elapsed) as u64
            } else {
                0
            },
    {
        self.config.duration.saturating_sub(self.elapsed)
    }

    /// Advance the scenario by one tick of `tick_ns` nanoseconds and return
    /// what the tick asks for: nothing once the scenario is complete.
    pub fn advance(&mut self, tick_ns: u64) -> (plan: TickPlan)
        requires
            old(self)@.elapsed + tick_ns <= u64::MAX,
            old(self)@.actions_executed < u64::MAX,
        ensures
            final(self)@.scenario == old(self)@.scenario,
            final(self)@.config == old(self)@.config,
            final(self)@.elapsed == old(self)@.elapsed + tick_ns,
            final(self)@.elapsed >= old(self)@.config.duration ==> {
                &&& plan == TickPlan::Nothing
                &&& final(self)@.actions_executed == old(self)@.actions_executed
            },
            final(self)@.elapsed < old(self)@.config.duration ==> {
                &&& plan == plan_for(old(self)@)
                &&& final(self)@.actions_executed == old(self)@.actions_executed + 1
            },
    {
        self.elapsed = self.elapsed + tick_ns;
        if self.elapsed >= self.config.duration {
            return TickPlan::Nothing;
        }
        let plan = match self.scenario {
            PerfScenario::Idle => TickPlan::Nothing,
            PerfScenario::WorldChurn => {
                if self.actions_executed % 60 < self.config.block_edits_per_sec as u64 {
                    churn_edit_exec(self.actions_executed)
                } else {
                    TickPlan::Nothing
                }
            },
            PerfScenario::NetStress => TickPlan::MovePlayers {
                count: self.config.player_count,
                step: self.actions_executed,
            },
        };
        self.actions_executed = self.actions_executed + 1;
        plan
    }

    /// Get the scenario type
    pub fn scenario(&self) -> (s: PerfScenario)
        ensures
            s == self@.scenario,
    {
        self.scenario
    }

    /// Get the scenario configuration
    pub fn config(&self) -> (c: &ScenarioConfig)
        ensures
            *c == self@.config,
    {
        &self.config
    }

    /// Get total actions executed
    pub fn actions_executed(&self) -> (n: u64)
        ensures
            n == self@.actions_executed,
    {
        self.actions_executed
    }
}

} // verus!
