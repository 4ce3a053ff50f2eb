use jobshell::parse::{ParseError, Redirects};
use jobshell::plan::{
    plan_stage, prepare_stage, stage_should_spawn, GroupPlan, StagePrep, StdinSource,
    StdoutTarget, StderrTarget,
};

fn no_redirects() -> Redirects {
    Redirects { cmd: b"x".to_vec(), input: None, output: None, error: None }
}

#[test]
fn middle_stages_of_a_pipeline_are_connected_by_pipes() {
    // Three stages, no redirections: stage 0 writes a pipe, stage 1 reads a
    // pipe and writes a pipe, stage 2 reads a pipe and inherits stdout.
    let p0 = plan_stage(&no_redirects(), 0, 3, false);
    let p1 = plan_stage(&no_redirects(), 1, 3, false);
    let p2 = plan_stage(&no_redirects(), 2, 3, false);
    assert_eq!(p0.stdin, StdinSource::Inherit);
    assert_eq!(p0.stdout, StdoutTarget::Pipe);
    assert_eq!(p1.stdin, StdinSource::Pipe);
    assert_eq!(p1.stdout, StdoutTarget::Pipe);
    assert_eq!(p2.stdin, StdinSource::Pipe);
    assert_eq!(p2.stdout, StdoutTarget::Inherit);
}

#[test]
fn output_redirect_replaces_pipe_and_terminal() {
    let rd = Redirects {
        cmd: b"x".to_vec(),
        input: None,
        output: Some(b"out".to_vec()),
        error: None,
    };
    // Even in the middle of a pipeline the redirection wins.
    let p = plan_stage(&rd, 0, 2, false);
    assert_eq!(p.stdout, StdoutTarget::Redirect);
    let p = plan_stage(&rd, 1, 2, false);
    assert_eq!(p.stdout, StdoutTarget::Redirect);
}

#[test]
fn input_redirect_replaces_pipe_and_terminal() {
    let rd = Redirects {
        cmd: b"x".to_vec(),
        input: Some(b"in".to_vec()),
        output: None,
        error: None,
    };
    let p = plan_stage(&rd, 0, 2, false);
    assert_eq!(p.stdin, StdinSource::Redirect);
    let p = plan_stage(&rd, 1, 2, false);
    assert_eq!(p.stdin, StdinSource::Redirect);
}

#[test]
fn error_redirect_plans_a_file_else_inherits() {
    let rd = Redirects {
        cmd: b"x".to_vec(),
        input: None,
        output: None,
        error: Some(b"err".to_vec()),
    };
    assert_eq!(plan_stage(&rd, 0, 1, false).stderr, StderrTarget::Redirect);
    assert_eq!(plan_stage(&no_redirects(), 0, 1, false).stderr, StderrTarget::Inherit);
}

#[test]
fn first_background_stage_leads_a_new_group() {
    assert_eq!(plan_stage(&no_redirects(), 0, 2, true).group, GroupPlan::NewGroup);
    assert_eq!(plan_stage(&no_redirects(), 0, 2, false).group, GroupPlan::InheritShell);
    assert_eq!(plan_stage(&no_redirects(), 1, 2, true).group, GroupPlan::JoinPipelineGroup);
    assert_eq!(plan_stage(&no_redirects(), 1, 2, false).group, GroupPlan::JoinPipelineGroup);
}

#[test]
fn stage_piping_from_a_failed_stage_is_not_spawned() {
    assert!(!stage_should_spawn(false, StdinSource::Pipe));
    assert!(stage_should_spawn(true, StdinSource::Pipe));
    // A stage with its own input source does not depend on the failed one.
    assert!(stage_should_spawn(false, StdinSource::Redirect));
    assert!(stage_should_spawn(false, StdinSource::Inherit));
}

#[test]
fn prepare_stage_dispatches_builtins() {
    match prepare_stage(b"cd /tmp", 0, 1, false) {
        StagePrep::Builtin(k, args) => {
            assert_eq!(k, jobshell::parse::CommandKind::Cd);
            assert_eq!(args, vec![b"/tmp".to_vec()]);
        }
        _ => panic!("expected a builtin"),
    }
}

#[test]
fn prepare_stage_plans_an_external_command() {
    match prepare_stage(b"sort<in.txt>out.txt -r", 1, 3, true) {
        StagePrep::External(x) => {
            assert_eq!(x.cmd, b"sort".to_vec());
            assert_eq!(x.args, vec![b"-r".to_vec()]);
            assert_eq!(x.input, Some(b"in.txt".to_vec()));
            assert_eq!(x.output, Some(b"out.txt".to_vec()));
            assert_eq!(x.error, None);
            assert_eq!(x.plan.stdin, StdinSource::Redirect);
            assert_eq!(x.plan.stdout, StdoutTarget::Redirect);
            assert_eq!(x.plan.stderr, StderrTarget::Inherit);
            assert_eq!(x.plan.group, GroupPlan::JoinPipelineGroup);
        }
        _ => panic!("expected an external command"),
    }
}

#[test]
fn prepare_stage_reports_a_missing_target() {
    match prepare_stage(b"sort> -r", 0, 1, false) {
        StagePrep::Malformed(e) => assert_eq!(e, ParseError::MissingRedirectTarget),
        _ => panic!("expected a malformed stage"),
    }
}
