//! The supervisor of the long-running server: it owns at most one process
//! at a time and decides, for each request, what to terminate and what to
//! launch. The caller performs those actions and reports what happened.

use vstd::prelude::*;
use vstd::multiset::Multiset;
use crate::backends::{Arg, args_view, server_args, server_args_spec};
use crate::error::BackendError;
use crate::locator::ResolvedExecutable;
use crate::models::{choose_startup_model, startup_model};
use crate::path::{FsPath, PathView, strs_view};

verus! {

/// What the supervisor holds: nothing, or one process serving a model.
#[derive(Debug)]
pub enum SupervisorState {
    Idle,
    Running { model_path: FsPath, pid: u32 },
}

/// One entry of the diagnostic journal.
#[derive(Debug)]
pub enum LogRecord {
    /// A server process was started.
    Launched { exe: FsPath, model_path: FsPath, pid: u32 },
    /// The owned process was told to terminate.
    Terminated { pid: u32 },
    /// Starting a server process failed.
    LaunchFailed { exe: FsPath, model_path: FsPath, reason: String },
    /// No model was found to start with.
    NoModelsFound { dir: FsPath },
}

/// The processes alive according to a journal: each launch adds its
/// process, each termination removes it.
pub open spec fn alive(rs: Seq<LogRecord>) -> Multiset<u32>
    decreases rs.len(),
{
    if rs.len() == 0 {
        Multiset::empty()
    } else {
        let before = alive(rs.drop_last());
        match rs.last() {
            LogRecord::Launched { pid, .. } => before.insert(pid),
            LogRecord::Terminated { pid } => before.remove(pid),
            _ => before,
        }
    }
}

/// The processes a state owns.
pub open spec fn owned(s: SupervisorState) -> Multiset<u32> {
    match s {
        SupervisorState::Idle => Multiset::empty(),
        SupervisorState::Running { pid, .. } => Multiset::singleton(pid),
    }
}

/// The process a state owns, if any.
pub open spec fn owned_pid(s: SupervisorState) -> Option<u32> {
    match s {
        SupervisorState::Idle => None,
        SupervisorState::Running { pid, .. } => Some(pid),
    }
}

/// At no point of the journal were two processes alive.
pub open spec fn never_two_alive(rs: Seq<LogRecord>) -> bool {
    forall|k: int| 0 <= k <= rs.len() ==> (#[trigger] alive(rs.take(k))).len() <= 1
}

/// The records that giving up the state `s` adds: the termination of its
/// process, if it has one.
pub open spec fn termination_records(s: SupervisorState) -> Seq<LogRecord> {
    match s {
        SupervisorState::Idle => Seq::empty(),
        SupervisorState::Running { pid, .. } => seq![LogRecord::Terminated { pid }],
    }
}

/// What the caller must do to carry out a switch: terminate `terminate`, if
/// any, then start `exe` with `args` from the executable's directory.
#[derive(Debug)]
pub struct LaunchPlan {
    pub terminate: Option<u32>,
    pub exe: ResolvedExecutable,
    pub model_path: FsPath,
    pub args: Vec<Arg>,
}

/// The supervisor's single state cell, with the journal of every launch and
/// termination it decided.
#[derive(Debug)]
pub struct Supervisor {
    state: SupervisorState,
    journal: Vec<LogRecord>,
}

proof fn lemma_push_keeps_bound(rs: Seq<LogRecord>, r: LogRecord)
    requires
        never_two_alive(rs),
        alive(rs.push(r)).len() <= 1,
    ensures
        never_two_alive(rs.push(r)),
{
    let rs2 = rs.push(r);
    assert forall|k: int| 0 <= k <= rs2.len() implies (#[trigger] alive(rs2.take(k))).len() <= 1 by {
        if k <= rs.len() {
            assert(rs2.take(k) =~= rs.take(k));
        } else {
            assert(rs2.take(k) =~= rs2);
        }
    }
}

proof fn lemma_alive_push(rs: Seq<LogRecord>, r: LogRecord)
    ensures
        rs.push(r).drop_last() == rs,
        rs.push(r).last() == r,
{
    assert(rs.push(r).drop_last() =~= rs);
}

impl Supervisor {
    /// The state the supervisor is in.
    pub closed spec fn state_of(&self) -> SupervisorState {
        self.state
    }

    /// The journal of decisions so far.
    pub closed spec fn records(&self) -> Seq<LogRecord> {
        self.journal@
    }

    /// The journal accounts for exactly the process the state owns, and never
    /// had two processes alive.
    pub open spec fn wf(&self) -> bool {
        &&& alive(self.records()) == owned(self.state_of())
        &&& never_two_alive(self.records())
    }

    /// An idle supervisor with an empty journal.
    pub fn new() -> (r: Supervisor)
        ensures
            r.wf(),
            r.state_of() is Idle,
            r.records().len() == 0,
    {
        let r = Supervisor { state: SupervisorState::Idle, journal: Vec::new() };
        assert forall|k: int| 0 <= k <= r.records().len() implies (#[trigger] alive(r.records().take(k))).len() <= 1 by {
            assert(r.records().take(k) =~= Seq::<LogRecord>::empty());
        }
        r
    }

    /// The current state.
    pub fn state(&self) -> (r: &SupervisorState)
        ensures
            *r == self.state_of(),
    {
        &self.state
    }

    /// Whether no process is owned.
    pub fn is_idle(&self) -> (r: bool)
        ensures
            r == self.state_of() is Idle,
    {
        match self.state {
            SupervisorState::Idle => true,
            _ => false,
        }
    }

    /// The journal, oldest record first.
    pub fn journal(&self) -> (r: &Vec<LogRecord>)
        ensures
            r@ == self.records(),
    {
        &self.journal
    }

    /// Gives up the owned process, if any: records its termination and
    /// returns it, for the caller to terminate. The state becomes Idle.
    fn release(&mut self) -> (r: Option<u32>)
        requires
            old(self).wf(),
        ensures
            final(self).wf(),
            r == owned_pid(old(self).state_of()),
            final(self).state_of() is Idle,
            final(self).records() == old(self).records() + termination_records(old(self).state_of()),
    {
        let ghost prev = self.state;
        let pid = match &self.state {
            SupervisorState::Idle => {
                assert(self.journal@ =~= self.journal@ + termination_records(prev));
                return None;
            },
            SupervisorState::Running { pid, .. } => *pid,
        };
        self.state = SupervisorState::Idle;
        let ghost before = self.journal@;
        let r = LogRecord::Terminated { pid };
        proof {
            lemma_alive_push(before, r);
            assert(alive(before.push(r)) =~= Multiset::<u32>::empty());
            lemma_push_keeps_bound(before, r);
        }
        self.journal.push(r);
        assert(self.journal@ =~= before + termination_records(prev));
        Some(pid)
    }

    /// The first half of `start_or_switch`. Fails with `ModelNotFound` when
    /// the model file does not exist, and passes on a failure to find the
    /// server's executable; either way nothing changes. Otherwise the owned
    /// process, if any, is given up (its termination recorded and handed
    /// back in the plan), and the plan says what to start.
    pub fn begin_switch(
        &mut self,
        model_path: FsPath,
        model_exists: bool,
        exe: Result<ResolvedExecutable, BackendError>,
    ) -> (r: Result<LaunchPlan, BackendError>)
        requires
            old(self).wf(),
        ensures
            final(self).wf(),
            !model_exists ==> {
                &&& r matches Err(BackendError::ModelNotFound { path }) && path@ == model_path@
                &&& *final(self) == *old(self)
            },
            model_exists && exe is Err ==> {
                &&& r == Err::<LaunchPlan, BackendError>(exe->Err_0)
                &&& *final(self) == *old(self)
            },
            model_exists && exe is Ok ==> {
                &&& r matches Ok(plan) && {
                    &&& plan.terminate == owned_pid(old(self).state_of())
                    &&& plan.exe == exe->Ok_0
                    &&& plan.model_path@ == model_path@
                    &&& args_view(plan.args@) == server_args_spec(model_path@)
                }
                &&& final(self).state_of() is Idle
                &&& final(self).records() == old(self).records() + termination_records(old(self).state_of())
            },
    {
        if !model_exists {
            return Err(BackendError::ModelNotFound { path: model_path });
        }
        match exe {
            Err(e) => Err(e),
            Ok(x) => {
                let terminate = self.release();
                let args = server_args(&model_path);
                Ok(LaunchPlan { terminate, exe: x, model_path, args })
            },
        }
    }

    /// The second half of `start_or_switch`, once the caller has terminated
    /// `plan.terminate` and tried to start the plan's process: on success the
    /// supervisor owns the new process; on failure it stays Idle and the
    /// failure is returned. Either outcome is recorded.
    pub fn finish_switch(&mut self, plan: LaunchPlan, spawned: Result<u32, String>) -> (r: Result<u32, BackendError>)
        requires
            old(self).wf(),
            old(self).state_of() is Idle,
        ensures
            final(self).wf(),
            final(self).records().len() == old(self).records().len() + 1,
            final(self).records().drop_last() == old(self).records(),
            spawned is Ok ==> {
                &&& r == Ok::<u32, BackendError>(spawned->Ok_0)
                &&& final(self).state_of() matches SupervisorState::Running { model_path, pid }
                    && model_path@ == plan.model_path@ && pid == spawned->Ok_0
                &&& final(self).records().last() matches LogRecord::Launched { exe, model_path, pid }
                    && exe@ == plan.exe.path_view() && model_path@ == plan.model_path@ && pid == spawned->Ok_0
            },
            spawned is Err ==> {
                &&& r matches Err(BackendError::LaunchFailed { reason }) && reason@ == spawned->Err_0@
                &&& final(self).state_of() is Idle
                &&& final(self).records().last() matches LogRecord::LaunchFailed { exe, model_path, reason }
                    && exe@ == plan.exe.path_view() && model_path@ == plan.model_path@ && reason@ == spawned->Err_0@
            },
    {
        let ghost before = self.journal@;
        match spawned {
            Ok(pid) => {
                let rec = LogRecord::Launched { exe: plan.exe.path().duplicate(), model_path: plan.model_path.duplicate(), pid };
                proof {
                    lemma_alive_push(before, rec);
                    assert(alive(before.push(rec)) =~= Multiset::singleton(pid));
                    lemma_push_keeps_bound(before, rec);
                }
                self.journal.push(rec);
                self.state = SupervisorState::Running { model_path: plan.model_path, pid };
                Ok(pid)
            },
            Err(reason) => {
                let rec = LogRecord::LaunchFailed {
                    exe: plan.exe.path().duplicate(),
                    model_path: plan.model_path,
                    reason: reason.clone(),
                };
                proof {
                    lemma_alive_push(before, rec);
                    lemma_push_keeps_bound(before, rec);
                }
                self.journal.push(rec);
                Err(BackendError::LaunchFailed { reason })
            },
        }
    }

    /// Gives up the owned process, if any, and returns it for the caller to
    /// terminate. On an Idle supervisor nothing changes and nothing is
    /// returned.
    pub fn stop(&mut self) -> (r: Option<u32>)
        requires
            old(self).wf(),
        ensures
            final(self).wf(),
            r == owned_pid(old(self).state_of()),
            final(self).state_of() is Idle,
            final(self).records() == old(self).records() + termination_records(old(self).state_of()),
            old(self).state_of() is Idle ==> *final(self) == *old(self),
    {
        if self.is_idle() {
            return None;
        }
        self.release()
    }

    /// Application exit: the supervisor ends Idle, having given up at most
    /// one process, which is returned for the caller to terminate.
    pub fn shutdown(&mut self) -> (r: Option<u32>)
        requires
            old(self).wf(),
        ensures
            final(self).wf(),
            r == owned_pid(old(self).state_of()),
            final(self).state_of() is Idle,
            final(self).records() == old(self).records() + termination_records(old(self).state_of()),
            final(self).records().len() <= old(self).records().len() + 1,
    {
        self.stop()
    }

    /// Application start: picks the model to start with (see
    /// `choose_startup_model`). When there is none, that is recorded and
    /// nothing else changes; the caller then leaves the supervisor Idle.
    pub fn startup(&mut self, models_dir: &FsPath, default_exists: bool, names: &Vec<String>) -> (r: Option<FsPath>)
        requires
            old(self).wf(),
        ensures
            final(self).wf(),
            final(self).state_of() == old(self).state_of(),
            match startup_model(models_dir@, default_exists, strs_view(names@)) {
                Some(p) => r matches Some(q) && q@ == p && final(self).records() == old(self).records(),
                None => {
                    &&& r is None
                    &&& final(self).records().len() == old(self).records().len() + 1
                    &&& final(self).records().drop_last() == old(self).records()
                    &&& final(self).records().last() matches LogRecord::NoModelsFound { dir } && dir@ == models_dir@
                },
            },
    {
        let chosen = choose_startup_model(models_dir, default_exists, names);
        if chosen.is_none() {
            let ghost before = self.journal@;
            let rec = LogRecord::NoModelsFound { dir: models_dir.duplicate() };
            proof {
                lemma_alive_push(before, rec);
                lemma_push_keeps_bound(before, rec);
            }
            self.journal.push(rec);
        }
        chosen
    }
}

/// At every point of a well-formed supervisor's history at most one server
/// process was alive, and the one alive now, if any, is the one it owns.
pub proof fn lemma_at_most_one_alive(s: Supervisor)
    requires
        s.wf(),
    ensures
        forall|k: int| 0 <= k <= s.records().len() ==> (#[trigger] alive(s.records().take(k))).len() <= 1,
        alive(s.records()).len() <= 1,
        s.state_of() matches SupervisorState::Running { pid, .. } ==> alive(s.records()).count(pid) == 1,
{
    assert(s.records().take(s.records().len() as int) =~= s.records());
}

/// Switching from a running model to another one that starts adds exactly
/// two records: first the termination of the process that served the
/// previous model, then the launch of the new one.
pub proof fn lemma_switch_terminates_then_launches(s0: Supervisor, s1: Supervisor, s2: Supervisor, pid: u32)
    requires
        s0.state_of() is Running,
        s1.records() == s0.records() + termination_records(s0.state_of()),
        s2.records().len() == s1.records().len() + 1,
        s2.records().drop_last() == s1.records(),
        s2.records().last() matches LogRecord::Launched { pid: p, .. } && p == pid,
    ensures
        s2.records().len() == s0.records().len() + 2,
        s2.records().take(s0.records().len() as int) == s0.records(),
        s2.records()[s0.records().len() as int] == (LogRecord::Terminated { pid: s0.state_of()->Running_pid }),
        s2.records()[s0.records().len() + 1int] matches LogRecord::Launched { pid: p, .. } && p == pid,
{
    let n = s0.records().len() as int;
    assert(s2.records()[n] == s1.records()[n]);
    assert(s2.records().take(n) =~= s0.records());
}

} // verus!
