//! Job control: the state the shell keeps about its jobs — at most one
//! stopped job and an ordered list of background jobs — and the transitions
//! the `fg` and `bg` builtins, the `jobs` listing and the background monitor
//! sweep make on it.

use vstd::prelude::*;

verus! {

/// A handle to one pipeline's set of spawned processes.
#[derive(Clone, Copy, PartialEq, Eq, Structural, Debug)]
pub struct Job {
    /// Id of the process the shell waits on: the last stage spawned.
    pub pid: u64,
    /// The pipeline's process-group id: the id of the first stage spawned.
    pub pgid: u64,
}

/// What one non-blocking status probe of a background job reported.
#[derive(Clone, Copy, PartialEq, Eq, Structural, Debug)]
pub enum ProbeStatus {
    /// The probe itself failed; assumed transient.
    Error,
    /// The process is still running.
    Running,
    /// The process had exited and its status was collected.
    Exited,
}

/// No two entries share a process id.
pub open spec fn unique_pids(s: Seq<Job>) -> bool {
    forall|i: int, j: int| 0 <= i < j < s.len() ==> s[i].pid != s[j].pid
}

/// Some entry has process id `pid`.
pub open spec fn pid_in(s: Seq<Job>, pid: u64) -> bool {
    exists|i: int| 0 <= i < s.len() && s[i].pid == pid
}

/// The process ids of the entries, in order.
pub open spec fn pids_of(s: Seq<Job>) -> Seq<u64> {
    s.map_values(|j: Job| j.pid)
}

pub proof fn lemma_pids_of_contains(s: Seq<Job>, p: u64)
    ensures
        pids_of(s).contains(p) <==> pid_in(s, p),
{
    if pids_of(s).contains(p) {
        let i = choose|i: int| 0 <= i < pids_of(s).len() && pids_of(s)[i] == p;
        assert(s[i].pid == p);
    }
    if pid_in(s, p) {
        let i = choose|i: int| 0 <= i < s.len() && s[i].pid == p;
        assert(pids_of(s)[i] == p);
    }
}

/// The entries of `s` whose flag in `f` is set, in order.
pub open spec fn keep_flagged<T>(s: Seq<T>, f: Seq<bool>) -> Seq<T>
    decreases s.len(),
{
    if s.len() == 0 || f.len() == 0 {
        Seq::empty()
    } else if f[0] {
        seq![s[0]] + keep_flagged(s.skip(1), f.skip(1))
    } else {
        keep_flagged(s.skip(1), f.skip(1))
    }
}

/// A pid stands in the kept entries exactly when some entry with a set flag
/// carries it.
pub proof fn lemma_keep_flagged_pid(s: Seq<Job>, f: Seq<bool>, p: u64)
    requires
        s.len() == f.len(),
    ensures
        pid_in(keep_flagged(s, f), p) <==> exists|i: int|
            0 <= i < s.len() && f[i] && s[i].pid == p,
    decreases s.len(),
{
    if s.len() == 0 {
    } else {
        lemma_keep_flagged_pid(s.skip(1), f.skip(1), p);
        let k = keep_flagged(s, f);
        let k2 = keep_flagged(s.skip(1), f.skip(1));
        if f[0] {
            assert(k == seq![s[0]] + k2);
            if pid_in(k, p) {
                let i = choose|i: int| 0 <= i < k.len() && k[i].pid == p;
                if i == 0 {
                    assert(f[0] && s[0].pid == p);
                } else {
                    assert(k2[i - 1].pid == p);
                    assert(pid_in(k2, p));
                    let m = choose|m: int| 0 <= m < s.skip(1).len() && f.skip(1)[m] && s.skip(
                        1,
                    )[m].pid == p;
                    assert(f[m + 1] && s[m + 1].pid == p);
                }
            }
            if exists|i: int| 0 <= i < s.len() && f[i] && s[i].pid == p {
                let i = choose|i: int| 0 <= i < s.len() && f[i] && s[i].pid == p;
                if i == 0 {
                    assert(k[0].pid == p);
                    assert(pid_in(k, p));
                } else {
                    assert(f.skip(1)[i - 1] && s.skip(1)[i - 1].pid == p);
                    assert(pid_in(k2, p));
                    let m = choose|m: int| 0 <= m < k2.len() && k2[m].pid == p;
                    assert(k[m + 1].pid == p);
                    assert(pid_in(k, p));
                }
            }
        } else {
            assert(k == k2);
            if pid_in(k, p) {
                let m = choose|m: int| 0 <= m < s.skip(1).len() && f.skip(1)[m] && s.skip(
                    1,
                )[m].pid == p;
                assert(f[m + 1] && s[m + 1].pid == p);
            }
            if exists|i: int| 0 <= i < s.len() && f[i] && s[i].pid == p {
                let i = choose|i: int| 0 <= i < s.len() && f[i] && s[i].pid == p;
                assert(i != 0);
                assert(f.skip(1)[i - 1] && s.skip(1)[i - 1].pid == p);
                assert(pid_in(k2, p));
            }
        }
    }
}

/// Keeping a flagged subsequence preserves pid uniqueness.
pub proof fn lemma_keep_flagged_unique(s: Seq<Job>, f: Seq<bool>)
    requires
        s.len() == f.len(),
        unique_pids(s),
    ensures
        unique_pids(keep_flagged(s, f)),
    decreases s.len(),
{
    if s.len() == 0 {
    } else {
        assert forall|i: int, j: int|
            0 <= i < j < s.skip(1).len() implies s.skip(1)[i].pid != s.skip(1)[j].pid by {
            assert(s[i + 1].pid != s[j + 1].pid);
        }
        lemma_keep_flagged_unique(s.skip(1), f.skip(1));
        let k = keep_flagged(s, f);
        let k2 = keep_flagged(s.skip(1), f.skip(1));
        if f[0] {
            assert(k == seq![s[0]] + k2);
            assert forall|a: int, b: int| 0 <= a < b < k.len() implies k[a].pid != k[b].pid by {
                if a == 0 {
                    assert(k[b] == k2[b - 1]);
                    assert(pid_in(k2, k2[b - 1].pid));
                    lemma_keep_flagged_pid(s.skip(1), f.skip(1), k2[b - 1].pid);
                    let m = choose|m: int|
                        0 <= m < s.skip(1).len() && f.skip(1)[m] && s.skip(1)[m].pid == k2[b
                            - 1].pid;
                    assert(s[m + 1].pid == k[b].pid);
                    assert(s[0].pid != s[m + 1].pid);
                } else {
                    assert(k[a] == k2[a - 1] && k[b] == k2[b - 1]);
                }
            }
        } else {
            assert(k == k2);
        }
    }
}

/// The flags of the probe results that a sweep keeps: an entry stays unless
/// its probe reported an exit.
pub open spec fn keep_mask(st: Seq<ProbeStatus>) -> Seq<bool> {
    st.map_values(|p: ProbeStatus| p != ProbeStatus::Exited)
}

/// The flags of the probe results that a sweep removes and reports.
pub open spec fn drop_mask(st: Seq<ProbeStatus>) -> Seq<bool> {
    st.map_values(|p: ProbeStatus| p == ProbeStatus::Exited)
}

/// The shell's job-tracking state: at most one stopped job — only the most
/// recent foreground job can be stopped — and the background jobs in
/// backgrounding order.
pub struct ShellState {
    pub stopped: Option<Job>,
    pub background: Vec<Job>,
}

/// What a `fg` operation selects, and from where.
#[derive(Clone, Copy, PartialEq, Eq, Structural, Debug)]
pub enum FgSource {
    Stopped,
    Background,
}

#[derive(Clone, Copy, PartialEq, Eq, Structural, Debug)]
pub struct FgOutcome {
    pub job: Job,
    pub source: FgSource,
}

/// The state after a foreground job is recorded as stopped.
pub open spec fn record_stop_spec(s: ShellState, j: Job) -> ShellState {
    ShellState { stopped: Some(j), background: s.background }
}

/// What `fg` selects: the stopped job when there is one, else the most
/// recently backgrounded job, else nothing.
pub open spec fn fg_choice_spec(s: ShellState) -> Option<FgOutcome> {
    match s.stopped {
        Some(j) => Some(FgOutcome { job: j, source: FgSource::Stopped }),
        None => if s.background@.len() > 0 {
            Some(FgOutcome { job: s.background@.last(), source: FgSource::Background })
        } else {
            None
        },
    }
}

impl ShellState {
    /// No two tracked jobs share a process id, and the stopped job is never
    /// also in the background list.
    pub open spec fn wf(self) -> bool {
        &&& unique_pids(self.background@)
        &&& match self.stopped {
            Some(j) => !pid_in(self.background@, j.pid),
            None => true,
        }
    }

    /// Is a process id tracked, in either slot?
    pub open spec fn tracks(self, pid: u64) -> bool {
        pid_in(self.background@, pid) || match self.stopped {
            Some(j) => j.pid == pid,
            None => false,
        }
    }

    /// The state of a shell that has spawned nothing yet.
    pub fn new() -> (s: ShellState)
        ensures
            s.wf(),
            s.stopped is None,
            s.background@.len() == 0,
    {
        ShellState { stopped: None, background: Vec::new() }
    }

    /// Append a job to the background list.
    pub fn push_background(&mut self, j: Job)
        requires
            old(self).wf(),
            !old(self).tracks(j.pid),
        ensures
            final(self).wf(),
            final(self).background@ == old(self).background@.push(j),
            final(self).stopped == old(self).stopped,
    {
        let ghost bg = self.background@;
        self.background.push(j);
        proof {
            assert forall|a: int, b: int|
                0 <= a < b < self.background@.len() implies self.background@[a].pid
                != self.background@[b].pid by {
                if b < bg.len() {
                } else {
                    assert(self.background@[b] == j);
                    if self.background@[a].pid == j.pid {
                        assert(pid_in(bg, j.pid));
                    }
                }
            }
            match self.stopped {
                Some(sj) => {
                    if pid_in(self.background@, sj.pid) {
                        let i = choose|i: int|
                            0 <= i < self.background@.len() && self.background@[i].pid == sj.pid;
                        if i < bg.len() {
                            assert(pid_in(bg, sj.pid));
                        }
                    }
                },
                None => {},
            }
        }
    }

    /// Record a job as the current stopped job.
    pub fn record_stop(&mut self, j: Job)
        requires
            old(self).wf(),
            old(self).stopped is None,
            !old(self).tracks(j.pid),
        ensures
            final(self).wf(),
            *final(self) == record_stop_spec(*old(self), j),
    {
        self.stopped = Some(j);
    }

    /// Take the current stopped job, leaving none.
    pub fn take_stopped(&mut self) -> (r: Option<Job>)
        requires
            old(self).wf(),
        ensures
            final(self).wf(),
            r == old(self).stopped,
            final(self).stopped is None,
            final(self).background == old(self).background,
    {
        let r = self.stopped;
        self.stopped = None;
        r
    }

    /// The current stopped job, if any, left in place.
    pub fn stopped_job(&self) -> (r: Option<Job>)
        ensures
            r == self.stopped,
    {
        self.stopped
    }

    /// The `bg` transition: move the stopped job — which the caller has
    /// just continued in place — to the end of the background list.  With
    /// no stopped job, nothing changes.
    pub fn bg(&mut self) -> (r: Option<Job>)
        requires
            old(self).wf(),
        ensures
            final(self).wf(),
            r == old(self).stopped,
            final(self).stopped is None,
            old(self).stopped matches Some(j) ==> final(self).background@ == old(self).background@
                .push(j),
            old(self).stopped is None ==> final(self).background@ == old(self).background@,
    {
        let r = self.stopped;
        self.stopped = None;
        match r {
            Some(j) => {
                self.push_background(j);
            },
            None => {},
        }
        r
    }

    /// The `fg` selection: take the stopped job if there is one; else pop
    /// the most recently backgrounded job; else nothing.  The job selected
    /// leaves the tracking — it is about to become the foreground job.
    pub fn fg(&mut self) -> (r: Option<FgOutcome>)
        requires
            old(self).wf(),
        ensures
            final(self).wf(),
            r == fg_choice_spec(*old(self)),
            final(self).stopped is None,
            old(self).stopped is Some ==> final(self).background == old(self).background,
            old(self).stopped is None && old(self).background@.len() > 0 ==> final(self).background@
                == old(self).background@.drop_last(),
            old(self).stopped is None && old(self).background@.len() == 0 ==> final(self).background@
                == old(self).background@,
            match r {
                Some(o) => !final(self).tracks(o.job.pid),
                None => true,
            },
    {
        match self.stopped {
            Some(j) => {
                self.stopped = None;
                proof {
                    assert(final(self).wf());
                }
                Some(FgOutcome { job: j, source: FgSource::Stopped })
            },
            None => {
                let ghost bg = self.background@;
                match self.background.pop() {
                    Some(j) => {
                        proof {
                            assert(self.background@ =~= bg.drop_last());
                            assert forall|a: int, b: int|
                                0 <= a < b < self.background@.len() implies self.background@[a].pid
                                != self.background@[b].pid by {
                                assert(bg[a].pid != bg[b].pid);
                            }
                            if pid_in(self.background@, j.pid) {
                                let i = choose|i: int|
                                    0 <= i < self.background@.len() && self.background@[i].pid
                                        == j.pid;
                                assert(bg[i].pid != bg[bg.len() - 1].pid);
                            }
                        }
                        Some(FgOutcome { job: j, source: FgSource::Background })
                    },
                    None => None,
                }
            },
        }
    }

    /// The pids the `jobs` builtin lists: the background jobs, in
    /// backgrounding order.
    pub fn job_pids(&self) -> (r: Vec<u64>)
        ensures
            r@ == pids_of(self.background@),
    {
        let mut r: Vec<u64> = Vec::new();
        let mut k: usize = 0;
        while k < self.background.len()
            invariant
                k <= self.background@.len(),
                r@.len() == k,
                forall|m: int| 0 <= m < k ==> r@[m] == self.background@[m].pid,
            decreases self.background@.len() - k,
        {
            r.push(self.background[k].pid);
            k = k + 1;
        }
        proof {
            assert(r@ =~= pids_of(self.background@));
        }
        r
    }

    /// Retain exactly the background jobs whose liveness probe reported
    /// them alive; used by `jobs` to drop entries whose process is gone.
    pub fn prune(&mut self, alive: &Vec<bool>)
        requires
            old(self).wf(),
            alive@.len() == old(self).background@.len(),
        ensures
            final(self).wf(),
            final(self).stopped == old(self).stopped,
            final(self).background@ == keep_flagged(old(self).background@, alive@),
    {
        let ghost bg = self.background@;
        let mut kept: Vec<Job> = Vec::new();
        let mut k: usize = 0;
        proof {
            assert(bg.skip(0) =~= bg);
            assert(alive@.skip(0) =~= alive@);
            assert(kept@ + keep_flagged(bg, alive@) =~= keep_flagged(bg, alive@));
        }
        while k < self.background.len()
            invariant
                k <= bg.len(),
                self.background@ == bg,
                alive@.len() == bg.len(),
                keep_flagged(bg, alive@) == kept@ + keep_flagged(bg.skip(k as int), alive@.skip(
                    k as int,
                )),
            decreases bg.len() - k,
        {
            let ghost pre = kept@;
            if alive[k] {
                kept.push(self.background[k]);
            }
            proof {
                assert(bg.skip(k as int).skip(1) =~= bg.skip(k + 1));
                assert(alive@.skip(k as int).skip(1) =~= alive@.skip(k + 1));
                assert(bg.skip(k as int)[0] == bg[k as int]);
                assert(alive@.skip(k as int)[0] == alive@[k as int]);
                if alive@[k as int] {
                    assert(kept@ =~= pre.push(bg[k as int]));
                    assert(pre + keep_flagged(bg.skip(k as int), alive@.skip(k as int)) =~= kept@
                        + keep_flagged(bg.skip(k + 1), alive@.skip(k + 1)));
                } else {
                    assert(pre + keep_flagged(bg.skip(k as int), alive@.skip(k as int)) =~= kept@
                        + keep_flagged(bg.skip(k + 1), alive@.skip(k + 1)));
                }
            }
            k = k + 1;
        }
        proof {
            assert(bg.skip(bg.len() as int) =~= Seq::<Job>::empty());
            assert(keep_flagged(bg, alive@) =~= kept@);
            lemma_keep_flagged_unique(bg, alive@);
            match self.stopped {
                Some(sj) => {
                    if pid_in(kept@, sj.pid) {
                        lemma_keep_flagged_pid(bg, alive@, sj.pid);
                        let i = choose|i: int| 0 <= i < bg.len() && alive@[i] && bg[i].pid == sj.pid;
                        assert(pid_in(bg, sj.pid));
                    }
                },
                None => {},
            }
        }
        self.background = kept;
    }

    /// One monitor sweep over the background list, given the probe result
    /// for each entry: entries whose probe reported an exit are removed and
    /// their pids returned, in order; entries still running, and entries
    /// whose probe failed, are kept.
    pub fn sweep(&mut self, status: &Vec<ProbeStatus>) -> (exited: Vec<u64>)
        requires
            old(self).wf(),
            status@.len() == old(self).background@.len(),
        ensures
            final(self).wf(),
            final(self).stopped == old(self).stopped,
            final(self).background@ == keep_flagged(old(self).background@, keep_mask(status@)),
            exited@ == pids_of(keep_flagged(old(self).background@, drop_mask(status@))),
    {
        let ghost bg = self.background@;
        let ghost km = keep_mask(status@);
        let ghost dm = drop_mask(status@);
        let mut kept: Vec<Job> = Vec::new();
        let mut exited: Vec<u64> = Vec::new();
        let mut k: usize = 0;
        proof {
            assert(bg.skip(0) =~= bg);
            assert(km.skip(0) =~= km);
            assert(dm.skip(0) =~= dm);
            assert(kept@ + keep_flagged(bg, km) =~= keep_flagged(bg, km));
            assert(exited@ + pids_of(keep_flagged(bg, dm)) =~= pids_of(keep_flagged(bg, dm)));
        }
        while k < self.background.len()
            invariant
                k <= bg.len(),
                self.background@ == bg,
                status@.len() == bg.len(),
                km == keep_mask(status@),
                dm == drop_mask(status@),
                keep_flagged(bg, km) == kept@ + keep_flagged(bg.skip(k as int), km.skip(k as int)),
                pids_of(keep_flagged(bg, dm)) == exited@ + pids_of(
                    keep_flagged(bg.skip(k as int), dm.skip(k as int)),
                ),
            decreases bg.len() - k,
        {
            let ghost pre_k = kept@;
            let ghost pre_e = exited@;
            let still = match status[k] {
                ProbeStatus::Exited => false,
                _ => true,
            };
            if still {
                kept.push(self.background[k]);
            } else {
                exited.push(self.background[k].pid);
            }
            proof {
                assert(bg.skip(k as int).skip(1) =~= bg.skip(k + 1));
                assert(km.skip(k as int).skip(1) =~= km.skip(k + 1));
                assert(dm.skip(k as int).skip(1) =~= dm.skip(k + 1));
                assert(bg.skip(k as int)[0] == bg[k as int]);
                assert(km.skip(k as int)[0] == km[k as int]);
                assert(dm.skip(k as int)[0] == dm[k as int]);
                assert(km[k as int] == (status@[k as int] != ProbeStatus::Exited));
                assert(dm[k as int] == (status@[k as int] == ProbeStatus::Exited));
                if still {
                    assert(kept@ =~= pre_k.push(bg[k as int]));
                    assert(pre_k + keep_flagged(bg.skip(k as int), km.skip(k as int)) =~= kept@
                        + keep_flagged(bg.skip(k + 1), km.skip(k + 1)));
                    assert(pre_e + pids_of(keep_flagged(bg.skip(k as int), dm.skip(k as int)))
                        =~= exited@ + pids_of(keep_flagged(bg.skip(k + 1), dm.skip(k + 1))));
                } else {
                    assert(exited@ =~= pre_e.push(bg[k as int].pid));
                    assert(pids_of(keep_flagged(bg.skip(k as int), dm.skip(k as int))) =~= seq![
                        bg[k as int].pid,
                    ] + pids_of(keep_flagged(bg.skip(k + 1), dm.skip(k + 1))));
                    assert(pre_k + keep_flagged(bg.skip(k as int), km.skip(k as int)) =~= kept@
                        + keep_flagged(bg.skip(k + 1), km.skip(k + 1)));
                    assert(pre_e + pids_of(keep_flagged(bg.skip(k as int), dm.skip(k as int)))
                        =~= exited@ + pids_of(keep_flagged(bg.skip(k + 1), dm.skip(k + 1))));
                }
            }
            k = k + 1;
        }
        proof {
            assert(bg.skip(bg.len() as int) =~= Seq::<Job>::empty());
            assert(keep_flagged(bg, km) =~= kept@);
            assert(pids_of(keep_flagged(bg, dm)) =~= exited@);
            lemma_keep_flagged_unique(bg, km);
            match self.stopped {
                Some(sj) => {
                    if pid_in(kept@, sj.pid) {
                        lemma_keep_flagged_pid(bg, km, sj.pid);
                        let i = choose|i: int| 0 <= i < bg.len() && km[i] && bg[i].pid == sj.pid;
                        assert(pid_in(bg, sj.pid));
                    }
                },
                None => {},
            }
        }
        self.background = kept;
        exited
    }
}

/// Law: after a foreground job `j` is recorded as stopped, the next `fg`
/// operation selects exactly `j`, from the stopped slot, to resume in the
/// foreground — the shell then blocks on it.
pub proof fn lemma_stop_then_fg(s: ShellState, j: Job)
    ensures
        fg_choice_spec(record_stop_spec(s, j)) == Some(
            FgOutcome { job: j, source: FgSource::Stopped },
        ),
{
}

/// Law: a job pushed onto the background list is listed by `jobs`; and in a
/// sweep whose probe of it reports an exit, it is removed from the list and
/// reported as exited.
pub proof fn lemma_background_lifecycle(s: ShellState, j: Job, st: Seq<ProbeStatus>)
    requires
        s.wf(),
        !s.tracks(j.pid),
        st.len() == s.background@.len() + 1,
        st[st.len() - 1] == ProbeStatus::Exited,
    ensures
        pids_of(s.background@.push(j)).contains(j.pid),
        !pid_in(keep_flagged(s.background@.push(j), keep_mask(st)), j.pid),
        pids_of(keep_flagged(s.background@.push(j), drop_mask(st))).contains(j.pid),
{
    let bg = s.background@.push(j);
    let n = s.background@.len() as int;
    assert(pids_of(bg)[n] == j.pid);
    assert(pids_of(bg).contains(j.pid));
    lemma_keep_flagged_pid(bg, keep_mask(st), j.pid);
    if pid_in(keep_flagged(bg, keep_mask(st)), j.pid) {
        let i = choose|i: int| 0 <= i < bg.len() && keep_mask(st)[i] && bg[i].pid == j.pid;
        assert(i < n);
        assert(pid_in(s.background@, j.pid));
    }
    lemma_keep_flagged_pid(bg, drop_mask(st), j.pid);
    assert(drop_mask(st)[n] && bg[n].pid == j.pid);
    assert(pid_in(keep_flagged(bg, drop_mask(st)), j.pid));
    lemma_pids_of_contains(keep_flagged(bg, drop_mask(st)), j.pid);
}

} // verus!
