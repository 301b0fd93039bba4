//! The order of work: for each table in turn export, archive, upload; stop at
//! the first failure.
//!
//! The pipeline performs nothing itself. It says which step is due; the
//! caller performs it and reports how it went.

use vstd::prelude::*;

use crate::config::{Config, ConfigView};
use crate::job::{job_for, TableJob};

verus! {

/// The steps taken for one table.
#[derive(Clone, Copy, Debug, PartialEq, Eq, Structural)]
pub enum Stage {
    Export,
    Archive,
    Upload,
}

/// How a step went.
#[derive(Clone, Copy, Debug, PartialEq, Eq, Structural)]
pub enum Outcome {
    Succeeded,
    Failed,
}

/// Why a run was given up.
#[derive(Clone, Copy, Debug, PartialEq, Eq, Structural)]
pub enum Failure {
    /// The table at this index lists no country code.
    NoCountryCode { table: usize },
    /// A step for the table at this index failed.
    StageFailed { table: usize, stage: Stage },
}

/// Where a run stands.
#[derive(Clone, Copy, Debug, PartialEq, Eq, Structural)]
pub enum State {
    /// The step `stage` for the table at index `table` is due.
    Running { table: usize, stage: Stage },
    /// Every table has been exported, archived and uploaded.
    Finished,
    /// The run was given up; nothing more is due.
    Aborted(Failure),
}

/// The state on turning to the table at index `table`.
pub open spec fn enter(config: ConfigView, table: int) -> State {
    if table >= config.tables.len() {
        State::Finished
    } else if config.tables[table].codes.len() == 0 {
        State::Aborted(Failure::NoCountryCode { table: table as usize })
    } else {
        State::Running { table: table as usize, stage: Stage::Export }
    }
}

/// The state in which a run begins.
pub open spec fn start_of(config: ConfigView) -> State {
    enter(config, 0)
}

/// The state that follows `state` once the step due in it went as `outcome`
/// says. A run that is finished or given up stays as it is.
pub open spec fn next_of(config: ConfigView, state: State, outcome: Outcome) -> State {
    match state {
        State::Running { table, stage } => match outcome {
            Outcome::Failed => State::Aborted(Failure::StageFailed { table, stage }),
            Outcome::Succeeded => match stage {
                Stage::Export => State::Running { table, stage: Stage::Archive },
                Stage::Archive => State::Running { table, stage: Stage::Upload },
                Stage::Upload => enter(config, table + 1),
            },
        },
        _ => state,
    }
}

/// A step is only ever due for a table that exists and lists a country code.
pub open spec fn state_fits(config: ConfigView, state: State) -> bool {
    state matches State::Running { table, .. } ==> table < config.tables.len()
        && config.tables[table as int].codes.len() > 0
}

/// The state reached from `state` after steps that went as `outcomes` say.
pub open spec fn after(config: ConfigView, state: State, outcomes: Seq<Outcome>) -> State
    decreases outcomes.len(),
{
    if outcomes.len() == 0 {
        state
    } else {
        next_of(config, after(config, state, outcomes.drop_last()), outcomes.last())
    }
}

/// The stage that is due after `steps` successful steps on one table.
pub open spec fn stage_at(steps: int) -> Stage {
    if steps == 0 {
        Stage::Export
    } else if steps == 1 {
        Stage::Archive
    } else {
        Stage::Upload
    }
}

/// A run over a configuration.
pub struct Pipeline {
    config: Config,
    state: State,
}

pub struct PipelineView {
    pub config: ConfigView,
    pub state: State,
}

impl View for Pipeline {
    type V = PipelineView;

    closed spec fn view(&self) -> PipelineView {
        PipelineView { config: self.config@, state: self.state }
    }
}

fn enter_table(config: &Config, table: usize) -> (state: State)
    requires
        table <= config.tables@.len(),
    ensures
        state == enter(config@, table as int),
        state_fits(config@, state),
{
    if table >= config.tables.len() {
        State::Finished
    } else if config.tables[table].codes.len() == 0 {
        State::Aborted(Failure::NoCountryCode { table })
    } else {
        State::Running { table, stage: Stage::Export }
    }
}

impl Pipeline {
    /// What every pipeline built by `start` and moved by `advance` satisfies.
    pub closed spec fn wf(&self) -> bool {
        state_fits(self.config@, self.state)
    }

    /// Begins a run: the export of the first table is due, if there is one.
    pub fn start(config: Config) -> (pipeline: Pipeline)
        ensures
            pipeline.wf(),
            pipeline@.config == config@,
            pipeline@.state == start_of(config@),
    {
        let state = enter_table(&config, 0);
        Pipeline { config, state }
    }

    /// Where the run stands.
    pub fn state(&self) -> (state: State)
        ensures
            state == self@.state,
    {
        self.state
    }

    /// The configuration of the run.
    pub fn config(&self) -> (config: &Config)
        ensures
            config@ == self@.config,
    {
        &self.config
    }

    /// The job of the table whose step is due; `None` once the run is over.
    pub fn job(&self) -> (job: Option<TableJob>)
        requires
            self.wf(),
        ensures
            match self@.state {
                State::Running { table, .. } => job matches Some(j) && j@ == job_for(
                    self@.config.tables[table as int].name,
                    self@.config.tables[table as int].codes[0],
                ),
                _ => job is None,
            },
    {
        match self.state {
            State::Running { table, .. } => TableJob::for_entry(&self.config.tables[table]),
            _ => None,
        }
    }

    /// Records how the step that was due went, and moves on.
    pub fn advance(&mut self, outcome: Outcome)
        requires
            old(self).wf(),
        ensures
            final(self).wf(),
            final(self)@.config == old(self)@.config,
            final(self)@.state == next_of(old(self)@.config, old(self)@.state, outcome),
    {
        match self.state {
            State::Running { table, stage } => {
                assert(table < self.config.tables.len());
                match outcome {
                    Outcome::Failed => {
                        self.state = State::Aborted(Failure::StageFailed { table, stage });
                    },
                    Outcome::Succeeded => {
                        match stage {
                            Stage::Export => {
                                self.state = State::Running { table, stage: Stage::Archive };
                            },
                            Stage::Archive => {
                                self.state = State::Running { table, stage: Stage::Upload };
                            },
                            Stage::Upload => {
                                self.state = enter_table(&self.config, table + 1);
                            },
                        }
                    },
                }
            },
            _ => {},
        }
    }
}

/// The export of a table other than the first becomes due only when the
/// upload of the table before it has succeeded, and in no other way.
pub proof fn lemma_export_follows_upload(
    config: ConfigView,
    state: State,
    outcome: Outcome,
    table: usize,
)
    requires
        config.tables.len() <= usize::MAX,
        state_fits(config, state),
        next_of(config, state, outcome) == (State::Running { table, stage: Stage::Export }),
    ensures
        table > 0,
        state == (State::Running { table: (table - 1) as usize, stage: Stage::Upload }),
        outcome == Outcome::Succeeded,
{
}

/// A run that is finished or given up stays so: after a failed step nothing
/// more becomes due, whatever is reported.
pub proof fn lemma_ended_run_stays_ended(config: ConfigView, state: State, outcomes: Seq<Outcome>)
    requires
        state is Aborted || state is Finished,
    ensures
        after(config, state, outcomes) == state,
    decreases outcomes.len(),
{
    if outcomes.len() > 0 {
        lemma_ended_run_stays_ended(config, state, outcomes.drop_last());
    }
}

/// Where every table lists a country code and every step succeeds, the steps
/// come in one fixed order: export, archive, upload for the first table, then
/// the same for the second, and so on. So each table is exported exactly
/// once, and the run is finished after three steps for each table.
pub proof fn lemma_steps_in_order(config: ConfigView, outcomes: Seq<Outcome>)
    requires
        config.tables.len() <= usize::MAX,
        forall|t: int| 0 <= t < config.tables.len() ==> (#[trigger] config.tables[t]).codes.len() > 0,
        forall|k: int| 0 <= k < outcomes.len() ==> outcomes[k] == Outcome::Succeeded,
        outcomes.len() <= 3 * config.tables.len(),
    ensures
        after(config, start_of(config), outcomes) == if outcomes.len() == 3 * config.tables.len() {
            State::Finished
        } else {
            State::Running {
                table: (outcomes.len() / 3) as usize,
                stage: stage_at((outcomes.len() % 3) as int),
            }
        },
    decreases outcomes.len(),
{
    if outcomes.len() > 0 {
        lemma_steps_in_order(config, outcomes.drop_last());
    }
}

} // verus!
