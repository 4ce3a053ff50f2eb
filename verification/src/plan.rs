//! Stream wiring for each pipeline stage: where its standard input, output
//! and error come from, and how its process-group membership is established.
//! The program around the library performs the opens, pipes and spawns that
//! these plans call for.

use vstd::prelude::*;
use crate::bytes::views_of;
use crate::parse::{
    classify, has_err, has_in, has_out, kind_of, parse_redirects, red_cmd, redirects_ok,
    split_stage, stage_args, stage_cmd, err_path, in_path, out_path, CommandKind, ParseError,
    Redirects,
};

verus! {

/// Where a stage's standard input comes from.  `Redirect` opens the stage's
/// input-redirection file; `Pipe` reads the previous stage's output pipe;
/// `Inherit` reads the shell's own standard input.
#[derive(Clone, Copy, PartialEq, Eq, Structural, Debug)]
pub enum StdinSource {
    Redirect,
    Pipe,
    Inherit,
}

/// Where a stage's standard output goes.  `Redirect` opens the stage's
/// output-redirection file with create-or-truncate semantics; `Pipe` writes
/// a fresh pipe read by the next stage; `Inherit` writes the shell's own
/// standard output.
#[derive(Clone, Copy, PartialEq, Eq, Structural, Debug)]
pub enum StdoutTarget {
    Redirect,
    Pipe,
    Inherit,
}

/// Where a stage's standard error goes.
#[derive(Clone, Copy, PartialEq, Eq, Structural, Debug)]
pub enum StderrTarget {
    Redirect,
    Inherit,
}

/// How a stage's process group is established.  The first stage of a
/// background pipeline leads a new group whose id is its own process id; the
/// first stage of a foreground pipeline stays in the shell's group; every
/// later stage joins the group the first stage established.
#[derive(Clone, Copy, PartialEq, Eq, Structural, Debug)]
pub enum GroupPlan {
    NewGroup,
    JoinPipelineGroup,
    InheritShell,
}

/// The wiring of one stage: its three standard streams and its process
/// group.
#[derive(Clone, Copy, PartialEq, Eq, Structural, Debug)]
pub struct StagePlan {
    pub stdin: StdinSource,
    pub stdout: StdoutTarget,
    pub stderr: StderrTarget,
    pub group: GroupPlan,
}

/// Stdin of stage `i`: the redirection file when one is given; else the
/// previous stage's pipe when there is a previous stage; else the shell's
/// stdin.
pub open spec fn stdin_spec(has_redirect: bool, i: int) -> StdinSource {
    if has_redirect {
        StdinSource::Redirect
    } else if i > 0 {
        StdinSource::Pipe
    } else {
        StdinSource::Inherit
    }
}

/// Stdout of stage `i` of `n`: the redirection file when one is given; else
/// a pipe to the next stage when there is a next stage; else the shell's
/// stdout.
pub open spec fn stdout_spec(has_redirect: bool, i: int, n: int) -> StdoutTarget {
    if has_redirect {
        StdoutTarget::Redirect
    } else if i + 1 < n {
        StdoutTarget::Pipe
    } else {
        StdoutTarget::Inherit
    }
}

/// Stderr of a stage: the redirection file when one is given, else the
/// shell's stderr.
pub open spec fn stderr_spec(has_redirect: bool) -> StderrTarget {
    if has_redirect {
        StderrTarget::Redirect
    } else {
        StderrTarget::Inherit
    }
}

/// Group membership of stage `i`: the first stage of a background pipeline
/// leads a new group, the first stage of a foreground pipeline stays in the
/// shell's group, and every later stage joins the pipeline's group.
pub open spec fn group_spec(i: int, background: bool) -> GroupPlan {
    if i == 0 {
        if background {
            GroupPlan::NewGroup
        } else {
            GroupPlan::InheritShell
        }
    } else {
        GroupPlan::JoinPipelineGroup
    }
}

/// Plan the wiring of stage `i` in a pipeline of `n` stages.
pub fn plan_stage(rd: &Redirects, i: usize, n: usize, background: bool) -> (p: StagePlan)
    requires
        i < n,
    ensures
        p.stdin == stdin_spec(rd.input is Some, i as int),
        p.stdout == stdout_spec(rd.output is Some, i as int, n as int),
        p.stderr == stderr_spec(rd.error is Some),
        p.group == group_spec(i as int, background),
{
    let stdin = if rd.input.is_some() {
        StdinSource::Redirect
    } else if i > 0 {
        StdinSource::Pipe
    } else {
        StdinSource::Inherit
    };
    let stdout = if rd.output.is_some() {
        StdoutTarget::Redirect
    } else if i + 1 < n {
        StdoutTarget::Pipe
    } else {
        StdoutTarget::Inherit
    };
    let stderr = if rd.error.is_some() {
        StderrTarget::Redirect
    } else {
        StderrTarget::Inherit
    };
    let group = if i == 0 {
        if background {
            GroupPlan::NewGroup
        } else {
            GroupPlan::InheritShell
        }
    } else {
        GroupPlan::JoinPipelineGroup
    };
    StagePlan { stdin, stdout, stderr, group }
}

/// May stage `i` be spawned, given whether the stage before it was spawned
/// successfully?  A stage whose stdin is the previous stage's pipe is not
/// spawned when that stage failed; every other stage is.
pub fn stage_should_spawn(prev_ok: bool, stdin: StdinSource) -> (r: bool)
    ensures
        r == (prev_ok || stdin != StdinSource::Pipe),
{
    prev_ok || !matches!(stdin, StdinSource::Pipe)
}

/// An external command ready to spawn: its name and arguments, its
/// redirection targets, and the wiring plan of its streams and group.
pub struct ExternalCommand {
    pub cmd: Vec<u8>,
    pub args: Vec<Vec<u8>>,
    pub input: Option<Vec<u8>>,
    pub output: Option<Vec<u8>>,
    pub error: Option<Vec<u8>>,
    pub plan: StagePlan,
}

/// Everything the shell decides about one stage of a pipeline.
pub enum StagePrep {
    /// The stage is a builtin (or blank); its argument tokens follow.
    Builtin(CommandKind, Vec<Vec<u8>>),
    /// The stage's command token has a redirection marker with no target:
    /// the stage is reported and skipped.
    Malformed(ParseError),
    /// The stage is an external command to spawn as planned.
    External(ExternalCommand),
}

/// Decide stage `i` of a pipeline of `n` stages: split it into tokens,
/// dispatch builtins by the command token, and for an external command
/// resolve its redirections and plan its wiring.
pub fn prepare_stage(stage: &[u8], i: usize, n: usize, background: bool) -> (r: StagePrep)
    requires
        i < n,
    ensures
        match r {
            StagePrep::Builtin(k, args) => k == kind_of(stage_cmd(stage@)) && k
                != CommandKind::External && views_of(args@) == stage_args(stage@),
            StagePrep::Malformed(e) => kind_of(stage_cmd(stage@)) == CommandKind::External
                && !redirects_ok(stage_cmd(stage@)) && e == ParseError::MissingRedirectTarget,
            StagePrep::External(x) => {
                let t = stage_cmd(stage@);
                &&& kind_of(t) == CommandKind::External
                &&& redirects_ok(t)
                &&& x.cmd@ == red_cmd(t)
                &&& views_of(x.args@) == stage_args(stage@)
                &&& (match x.input {
                    Some(p) => has_in(t) && p@ == in_path(t),
                    None => !has_in(t),
                })
                &&& (match x.output {
                    Some(p) => has_out(t) && p@ == out_path(t),
                    None => !has_out(t),
                })
                &&& (match x.error {
                    Some(p) => has_err(t) && p@ == err_path(t),
                    None => !has_err(t),
                })
                &&& x.plan.stdin == stdin_spec(has_in(t), i as int)
                &&& x.plan.stdout == stdout_spec(has_out(t), i as int, n as int)
                &&& x.plan.stderr == stderr_spec(has_err(t))
                &&& x.plan.group == group_spec(i as int, background)
            },
        },
{
    let words = split_stage(stage);
    let kind = classify(words.cmd.as_slice());
    match kind {
        CommandKind::External => {
            match parse_redirects(words.cmd.as_slice()) {
                Ok(rd) => {
                    let plan = plan_stage(&rd, i, n, background);
                    StagePrep::External(
                        ExternalCommand {
                            cmd: rd.cmd,
                            args: words.args,
                            input: rd.input,
                            output: rd.output,
                            error: rd.error,
                            plan,
                        },
                    )
                },
                Err(e) => StagePrep::Malformed(e),
            }
        },
        _ => StagePrep::Builtin(kind, words.args),
    }
}

/// Law: in a pipeline with no redirections, adjacent stages are connected —
/// stage `i` writes the pipe that stage `i + 1` reads, so the bytes stage
/// `i` writes to its standard output are exactly the bytes stage `i + 1`
/// reads from its standard input.
pub proof fn lemma_pipeline_wiring(i: int, n: int)
    requires
        0 <= i,
        i + 1 < n,
    ensures
        stdout_spec(false, i, n) == StdoutTarget::Pipe,
        stdin_spec(false, i + 1) == StdinSource::Pipe,
{
}

/// Law: a stage with an output redirection writes the redirection file,
/// never the terminal and never a pipe, wherever it stands in the pipeline.
pub proof fn lemma_output_redirect_wins(i: int, n: int)
    ensures
        stdout_spec(true, i, n) == StdoutTarget::Redirect,
{
}

/// Law: a stage with an input redirection reads the redirection file, never
/// the terminal and never a pipe, wherever it stands in the pipeline.
pub proof fn lemma_input_redirect_wins(i: int)
    ensures
        stdin_spec(true, i) == StdinSource::Redirect,
{
}

} // verus!
