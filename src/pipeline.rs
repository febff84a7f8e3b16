//! The stage-by-stage executor: which stage runs next, and what happens when
//! one fails. The caller runs each stage and reports its outcome; the
//! executor never relies on a later stage to reveal an earlier failure.
use vstd::prelude::*;

use crate::error::MityError;

verus! {

/// A step of a pipeline.
#[derive(Debug, Clone, Copy, PartialEq, Eq, Structural)]
pub enum Stage {
    /// Joint variant calling over the inputs, restricted to the region.
    Call,
    /// Renaming of the caller's colliding header lines.
    Rewrite,
    /// Block compression of the call set.
    Compress,
    /// Building the index of a compressed file.
    Index,
    /// Splitting multi-allelic records and left-aligning them.
    Decompose,
    /// Applying the record filters.
    Filter,
    /// Sorting by contig order and position, and compressing.
    Sort,
}

pub open spec fn stage_name_of(s: Stage) -> Seq<char> {
    match s {
        Stage::Call => "freebayes"@,
        Stage::Rewrite => "header rewrite"@,
        Stage::Compress => "bgzip"@,
        Stage::Index => "tabix"@,
        Stage::Decompose => "bcftools norm"@,
        Stage::Filter => "filter"@,
        Stage::Sort => "gsort"@,
    }
}

/// The name under which a stage is reported.
pub fn stage_name(s: Stage) -> (r: &'static str)
    ensures
        r@ == stage_name_of(s),
{
    match s {
        Stage::Call => "freebayes",
        Stage::Rewrite => "header rewrite",
        Stage::Compress => "bgzip",
        Stage::Index => "tabix",
        Stage::Decompose => "bcftools norm",
        Stage::Filter => "filter",
        Stage::Sort => "gsort",
    }
}

/// How a stage ended, as its runner observed it.
#[derive(Debug)]
pub enum StageOutcome {
    Succeeded,
    /// Non-zero exit or a failure to start, with the diagnostic output.
    Failed(String),
}

/// What the runner must do next.
#[derive(Debug)]
pub enum PipelineAction {
    Run(Stage),
    /// Every stage succeeded.
    Finish,
    /// Delete each path of `discard`, then fail with `error`.
    Abort { error: MityError, discard: Vec<String> },
}

/// Where a pipeline stands.
#[derive(Debug, Clone, Copy, PartialEq, Eq, Structural)]
pub enum RunState {
    Running,
    Finished,
    Failed,
}

/// An ordered list of stages being run one at a time.
#[derive(Debug)]
pub struct Pipeline {
    pub stages: Vec<Stage>,
    /// Index of the stage running now.
    pub next: usize,
    /// Outputs that must not survive a failure.
    pub discard: Vec<String>,
    pub state: RunState,
}

/// The abstract content of an action.
pub ghost enum ActionView {
    Run(Stage),
    Finish,
    Abort { stage: Stage, diagnostics: Seq<char>, discard: Seq<Seq<char>> },
}

pub open spec fn action_view(a: PipelineAction) -> ActionView {
    match a {
        PipelineAction::Run(s) => ActionView::Run(s),
        PipelineAction::Finish => ActionView::Finish,
        PipelineAction::Abort { error, discard } => match error {
            MityError::ExternalTool { stage, diagnostics } => ActionView::Abort {
                stage,
                diagnostics: diagnostics@,
                discard: discard.deep_view(),
            },
            _ => ActionView::Finish,
        },
    }
}

impl Pipeline {
    pub open spec fn wf(&self) -> bool {
        &&& self.stages.len() > 0
        &&& self.next < self.stages.len()
    }

    /// The action that follows `outcome` of the running stage.
    pub open spec fn step_action(&self, outcome: StageOutcome) -> ActionView {
        match outcome {
            StageOutcome::Succeeded => if self.next + 1 == self.stages.len() {
                ActionView::Finish
            } else {
                ActionView::Run(self.stages[self.next + 1])
            },
            StageOutcome::Failed(d) => ActionView::Abort {
                stage: self.stages[self.next as int],
                diagnostics: d@,
                discard: self.discard.deep_view(),
            },
        }
    }

    /// A pipeline positioned on its first stage.
    pub fn new(stages: Vec<Stage>, discard: Vec<String>) -> (r: Pipeline)
        requires
            stages.len() > 0,
        ensures
            r.wf(),
            r.stages@ == stages@,
            r.discard.deep_view() == discard.deep_view(),
            r.next == 0,
            r.state == RunState::Running,
    {
        Pipeline { stages, next: 0, discard, state: RunState::Running }
    }

    /// The first action: run the first stage.
    pub fn first_action(&self) -> (r: PipelineAction)
        requires
            self.wf(),
        ensures
            action_view(r) == ActionView::Run(self.stages[0]),
    {
        PipelineAction::Run(self.stages[0])
    }

    /// Takes the outcome of the running stage and says what comes next: the
    /// following stage, the end, or an abort that discards the outputs and
    /// surfaces the failing stage's diagnostics. Nothing runs after a failure.
    pub fn record(&mut self, outcome: StageOutcome) -> (r: PipelineAction)
        requires
            old(self).wf(),
            old(self).state == RunState::Running,
        ensures
            action_view(r) == old(self).step_action(outcome),
            final(self).stages@ == old(self).stages@,
            final(self).discard.deep_view() == old(self).discard.deep_view(),
            final(self).state == match action_view(r) {
                ActionView::Run(_) => RunState::Running,
                ActionView::Finish => RunState::Finished,
                ActionView::Abort { .. } => RunState::Failed,
            },
            final(self).state == RunState::Running ==> final(self).wf() && final(self).next
                == old(self).next + 1,
            final(self).state != RunState::Running ==> final(self).next == old(self).next,
    {
        match outcome {
            StageOutcome::Succeeded => {
                if self.next + 1 == self.stages.len() {
                    self.state = RunState::Finished;
                    PipelineAction::Finish
                } else {
                    self.next = self.next + 1;
                    PipelineAction::Run(self.stages[self.next])
                }
            },
            StageOutcome::Failed(d) => {
                self.state = RunState::Failed;
                let stage = self.stages[self.next];
                PipelineAction::Abort {
                    error: MityError::ExternalTool { stage, diagnostics: d },
                    discard: self.discard.clone(),
                }
            },
        }
    }
}

} // verus!
