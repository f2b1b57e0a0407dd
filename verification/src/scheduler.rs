//! The scheduler loop: the fixed cycle of a monitor, which fetches, aggregates,
//! renders and sleeps, one after the other and without end. The caller does
//! the work of each step; the scheduler says which step is due.

use crate::render::MAX_ROWS;
use vstd::prelude::*;

verus! {

/// The seconds between two ticks, unless configured otherwise.
pub const DEFAULT_INTERVAL_SECONDS: u64 = 3;

/// The rows of the table, unless configured otherwise.
pub const DEFAULT_ROW_LIMIT: usize = 10;

/// What a monitor is run with.
#[derive(Clone, Copy, Debug, PartialEq, Eq)]
pub struct Config {
    /// The seconds to sleep between two ticks.
    pub interval_seconds: u64,
    /// The number of rows of the table.
    pub row_limit: usize,
}

impl Config {
    /// A table has at least one row, and no more than a frame can address.
    pub open spec fn wf(&self) -> bool {
        0 < self.row_limit <= MAX_ROWS
    }

    /// A configuration of the given interval and row limit; `None` if the
    /// row limit is zero or more than a frame can address.
    pub fn new(interval_seconds: u64, row_limit: usize) -> (config: Option<Config>)
        ensures
            config is Some <==> 0 < row_limit <= MAX_ROWS,
            config is Some ==> config->0 == (Config { interval_seconds, row_limit }),
    {
        if 0 < row_limit && row_limit <= MAX_ROWS {
            Some(Config { interval_seconds, row_limit })
        } else {
            None
        }
    }

    /// Three seconds between ticks, and ten rows.
    pub fn standard() -> (config: Config)
        ensures
            config == (Config {
                interval_seconds: DEFAULT_INTERVAL_SECONDS,
                row_limit: DEFAULT_ROW_LIMIT,
            }),
            config.wf(),
    {
        Config { interval_seconds: DEFAULT_INTERVAL_SECONDS, row_limit: DEFAULT_ROW_LIMIT }
    }
}

/// The steps of one cycle, in their order.
#[derive(Clone, Copy, Debug, PartialEq, Eq)]
pub enum Phase {
    /// The processes are sampled.
    Fetch,
    /// The samples are recorded and ranked.
    Aggregate,
    /// The frame is written.
    Render,
    /// The monitor waits for the next tick.
    Sleep,
}

impl Phase {
    /// The step that follows this one; after the sleep, the cycle starts
    /// again.
    pub open spec fn successor(self) -> Phase {
        match self {
            Phase::Fetch => Phase::Aggregate,
            Phase::Aggregate => Phase::Render,
            Phase::Render => Phase::Sleep,
            Phase::Sleep => Phase::Fetch,
        }
    }

    /// The step reached from this one after `steps` steps.
    pub open spec fn after(self, steps: nat) -> Phase
        decreases steps,
    {
        if steps == 0 {
            self
        } else {
            self.after((steps - 1) as nat).successor()
        }
    }
}

/// What the caller has to do for a step.
#[derive(Clone, Copy, Debug, PartialEq, Eq)]
pub enum Action {
    /// Sample the processes.
    Fetch,
    /// Record and rank the samples, showing at most `limit` rows.
    Aggregate { limit: usize },
    /// Write the frame of `limit` rows.
    Render { limit: usize },
    /// Sleep for `seconds` seconds.
    Sleep { seconds: u64 },
}

/// The action that `config` asks for in `phase`.
pub open spec fn action_of(config: Config, phase: Phase) -> Action {
    match phase {
        Phase::Fetch => Action::Fetch,
        Phase::Aggregate => Action::Aggregate { limit: config.row_limit },
        Phase::Render => Action::Render { limit: config.row_limit },
        Phase::Sleep => Action::Sleep { seconds: config.interval_seconds },
    }
}

/// The loop of a monitor: where in the cycle it stands.
pub struct Scheduler {
    /// What the monitor is run with.
    pub config: Config,
    /// The step that is due.
    pub phase: Phase,
}

impl Scheduler {
    /// A scheduler at the start of its first cycle.
    pub fn new(config: Config) -> (scheduler: Scheduler)
        ensures
            scheduler.config == config,
            scheduler.phase == Phase::Fetch,
    {
        Scheduler { config, phase: Phase::Fetch }
    }

    /// Returns the action of the step that is due, and moves on to the step
    /// that follows it. There is no last step.
    pub fn advance(&mut self) -> (action: Action)
        ensures
            action == action_of(old(self).config, old(self).phase),
            final(self).config == old(self).config,
            final(self).phase == old(self).phase.successor(),
    {
        let action = match self.phase {
            Phase::Fetch => Action::Fetch,
            Phase::Aggregate => Action::Aggregate { limit: self.config.row_limit },
            Phase::Render => Action::Render { limit: self.config.row_limit },
            Phase::Sleep => Action::Sleep { seconds: self.config.interval_seconds },
        };
        self.phase = match self.phase {
            Phase::Fetch => Phase::Aggregate,
            Phase::Aggregate => Phase::Render,
            Phase::Render => Phase::Sleep,
            Phase::Sleep => Phase::Fetch,
        };
        action
    }
}

/// The cycle repeats without end: four steps on, the same step is due again,
/// and a sleep separates every tick from the next.
pub proof fn lemma_cycle_repeats(phase: Phase, steps: nat)
    ensures
        phase.after(steps + 4) == phase.after(steps),
        phase.after(4) == phase,
{
    reveal_with_fuel(Phase::after, 5);
    assert(phase.after(steps + 4) == phase.after(steps).successor().successor().successor().successor());
}

} // verus!
