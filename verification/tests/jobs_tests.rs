use jobshell::jobs::{FgSource, Job, ProbeStatus, ShellState};

fn job(pid: u64) -> Job {
    Job { pid, pgid: pid }
}

#[test]
fn new_state_tracks_nothing() {
    let s = ShellState::new();
    assert!(s.job_pids().is_empty());
}

#[test]
fn background_jobs_are_listed_in_backgrounding_order() {
    let mut s = ShellState::new();
    s.push_background(job(10));
    s.push_background(job(20));
    s.push_background(job(30));
    assert_eq!(s.job_pids(), vec![10, 20, 30]);
}

#[test]
fn fg_prefers_the_stopped_job() {
    let mut s = ShellState::new();
    s.push_background(job(10));
    s.record_stop(job(99));
    let o = s.fg().unwrap();
    assert_eq!(o.job.pid, 99);
    assert_eq!(o.source, FgSource::Stopped);
    // The stopped slot is cleared; the background list is untouched.
    assert_eq!(s.job_pids(), vec![10]);
    assert!(s.take_stopped().is_none());
}

#[test]
fn fg_pops_the_most_recently_backgrounded_job() {
    let mut s = ShellState::new();
    s.push_background(job(10));
    s.push_background(job(20));
    let o = s.fg().unwrap();
    assert_eq!(o.job.pid, 20);
    assert_eq!(o.source, FgSource::Background);
    assert_eq!(s.job_pids(), vec![10]);
}

#[test]
fn fg_with_nothing_tracked_does_nothing() {
    let mut s = ShellState::new();
    assert!(s.fg().is_none());
    assert!(s.job_pids().is_empty());
}

#[test]
fn stop_then_fg_resumes_the_same_job() {
    // A foreground job is stopped, recorded, and fg then selects exactly it.
    let mut s = ShellState::new();
    let stopped = job(77);
    s.record_stop(stopped);
    let o = s.fg().unwrap();
    assert_eq!(o.job, stopped);
    assert_eq!(o.source, FgSource::Stopped);
}

#[test]
fn bg_moves_the_stopped_job_to_the_background_list() {
    // The bg builtin: continue the stopped job, then append it to the
    // background list.
    let mut s = ShellState::new();
    s.push_background(job(10));
    s.record_stop(job(20));
    assert_eq!(s.stopped_job().map(|j| j.pid), Some(20));
    let j = s.bg().unwrap();
    assert_eq!(j.pid, 20);
    assert_eq!(s.job_pids(), vec![10, 20]);
    assert!(s.stopped_job().is_none());
}

#[test]
fn bg_with_no_stopped_job_changes_nothing() {
    let mut s = ShellState::new();
    s.push_background(job(10));
    assert!(s.bg().is_none());
    assert_eq!(s.job_pids(), vec![10]);
}

#[test]
fn aborted_bg_restores_the_stopped_job() {
    // When continuing the job fails, the transition is aborted and the
    // prior state is preserved.
    let mut s = ShellState::new();
    s.record_stop(job(20));
    let j = s.take_stopped().unwrap();
    s.record_stop(j);
    let o = s.fg().unwrap();
    assert_eq!(o.job.pid, 20);
    assert_eq!(o.source, FgSource::Stopped);
}

#[test]
fn sweep_removes_and_reports_exited_jobs() {
    let mut s = ShellState::new();
    s.push_background(job(10));
    s.push_background(job(20));
    s.push_background(job(30));
    let exited = s.sweep(&vec![ProbeStatus::Running, ProbeStatus::Exited, ProbeStatus::Running]);
    assert_eq!(exited, vec![20]);
    assert_eq!(s.job_pids(), vec![10, 30]);
}

#[test]
fn sweep_keeps_jobs_whose_probe_failed() {
    let mut s = ShellState::new();
    s.push_background(job(10));
    s.push_background(job(20));
    let exited = s.sweep(&vec![ProbeStatus::Error, ProbeStatus::Exited]);
    assert_eq!(exited, vec![20]);
    assert_eq!(s.job_pids(), vec![10]);
}

#[test]
fn backgrounded_job_is_listed_then_reaped_by_one_sweep() {
    // A backgrounded job appears in the jobs listing while running, and the
    // first sweep that probes it as exited removes and reports it.
    let mut s = ShellState::new();
    s.push_background(job(42));
    assert!(s.job_pids().contains(&42));
    let exited = s.sweep(&vec![ProbeStatus::Exited]);
    assert_eq!(exited, vec![42]);
    assert!(!s.job_pids().contains(&42));
}

#[test]
fn prune_retains_only_live_jobs() {
    let mut s = ShellState::new();
    s.push_background(job(10));
    s.push_background(job(20));
    s.push_background(job(30));
    s.prune(&vec![true, false, true]);
    assert_eq!(s.job_pids(), vec![10, 30]);
}

#[test]
fn sweep_of_an_empty_list_reports_nothing() {
    let mut s = ShellState::new();
    let exited = s.sweep(&vec![]);
    assert!(exited.is_empty());
}
