//! Stages and pipelines: which commands an export runs, and in what order.

use vstd::prelude::*;
use crate::session::Session;
use crate::session::SessionState;
use crate::text::texts;

verus! {

/// What a stage writes to its standard output.
#[derive(Debug, Clone, Copy, PartialEq, Eq, Structural)]
pub enum OutputKind {
    /// Plain dump data, which the pipeline may compress on its way out.
    Compressible,
    /// Bytes that are passed on as they are.
    Raw,
}

/// One environment variable set for a stage.
#[derive(Debug, Clone, PartialEq, Eq)]
pub struct EnvVar {
    pub name: String,
    pub value: String,
}

/// The description of one external command.
#[derive(Debug, Clone, PartialEq, Eq)]
pub struct Stage {
    /// The name of the executable.
    pub program: String,
    /// Its arguments, in order.
    pub args: Vec<String>,
    /// The environment variables set for it.
    pub env: Vec<EnvVar>,
    /// What it writes to its standard output.
    pub output: OutputKind,
}

/// The mathematical value of a [`Stage`].
pub struct StageView {
    pub program: Seq<char>,
    pub args: Seq<Seq<char>>,
    pub env: Seq<(Seq<char>, Seq<char>)>,
    pub output: OutputKind,
}

/// The views of a sequence of environment variables.
pub open spec fn env_views(env: Seq<EnvVar>) -> Seq<(Seq<char>, Seq<char>)> {
    Seq::new(env.len(), |i: int| (env[i].name@, env[i].value@))
}

impl View for Stage {
    type V = StageView;

    open spec fn view(&self) -> StageView {
        StageView {
            program: self.program@,
            args: texts(self.args@),
            env: env_views(self.env@),
            output: self.output,
        }
    }
}

/// The views of a sequence of stages.
pub open spec fn stage_views(stages: Seq<Stage>) -> Seq<StageView> {
    Seq::new(stages.len(), |i: int| stages[i]@)
}

/// How the stages of a pipeline follow one another.
#[derive(Debug, Clone, Copy, PartialEq, Eq, Structural)]
pub enum Policy {
    /// There is one stage; its exit is the pipeline's.
    SingleStage,
    /// A stage starts only after the one before it has exited with code
    /// zero; the first other exit is the pipeline's.
    SequentialOnSuccess,
}

/// An ordered list of stages and the rule by which they follow one another.
#[derive(Debug, Clone, PartialEq, Eq)]
pub struct Pipeline {
    pub stages: Vec<Stage>,
    pub policy: Policy,
}

impl Pipeline {
    /// A pipeline has at least one stage, and exactly one where its policy
    /// is `SingleStage`.
    pub open spec fn wf(&self) -> bool {
        &&& self.stages@.len() >= 1
        &&& self.policy == Policy::SingleStage ==> self.stages@.len() == 1
    }

    /// The pipeline of one stage.
    pub fn single(stage: Stage) -> (p: Pipeline)
        ensures
            p.wf(),
            p.policy == Policy::SingleStage,
            stage_views(p.stages@) == seq![stage@],
    {
        let mut stages: Vec<Stage> = Vec::new();
        stages.push(stage);
        assert(stage_views(stages@) =~= seq![stage@]);
        Pipeline { stages, policy: Policy::SingleStage }
    }

    /// The pipeline that runs `first` and, if that exits with code zero,
    /// `second`.
    pub fn sequential(first: Stage, second: Stage) -> (p: Pipeline)
        ensures
            p.wf(),
            p.policy == Policy::SequentialOnSuccess,
            stage_views(p.stages@) == seq![first@, second@],
    {
        let mut stages: Vec<Stage> = Vec::new();
        stages.push(first);
        stages.push(second);
        assert(stage_views(stages@) =~= seq![first@, second@]);
        Pipeline { stages, policy: Policy::SequentialOnSuccess }
    }

    /// The number of stages.
    pub fn len(&self) -> (n: usize)
        ensures
            n == self.stages@.len(),
    {
        self.stages.len()
    }

    /// The stage with the given index.
    pub fn stage(&self, index: usize) -> (r: Option<&Stage>)
        ensures
            r == if index < self.stages@.len() {
                Some(&self.stages@[index as int])
            } else {
                None
            },
    {
        if index < self.stages.len() {
            Some(&self.stages[index])
        } else {
            None
        }
    }

    /// A session that runs this pipeline from its first stage.
    pub fn session(&self) -> (s: Session)
        requires
            self.wf(),
        ensures
            s@ == SessionState::initial(self.stages@.len()),
            s@.wf(),
    {
        Session::new(self.stages.len())
    }
}

} // verus!
