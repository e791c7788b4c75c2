//! The orchestrator session: one reconnecting control channel.
//!
//! The session decides; a surrounding loop moves bytes. Each inbound frame
//! goes through `handle_frame`, which returns the actions the loop must
//! perform: frames to send, containers to start or kill, or shutting down.
//! The loop reports transport events through `on_disconnect` and asks
//! `heartbeat_frame` and `registration_overdue` on its timers.

use vstd::prelude::*;
use crate::config::{NodeConfig, config_wf};
use crate::executor::{JobExecutor, ContainerPlan, PlanV, RJobV, assignment_rejected,
    spec_reject_result, spec_plan, cancel_model};
use crate::hardware::{NodeCapabilities, CapsV, opt_view};
use crate::json::spec_print;
use crate::protocol::{JobData, JobV, JobStatusUpdate, StatusV, NodeMessage,
    OrchestratorMessage, OMsgV, enc_register, enc_heartbeat, enc_job_status, enc_job_result,
    encode_node_message, decode_orchestrator_frame, spec_dec_frame, caps_to_json,
    opt_str_to_json, obj_field};
use crate::json::{Json, JVal, jv_members, print_json};
use crate::text::str_eq;

verus! {

/// What the surrounding loop must do after a frame is handled.
#[derive(Debug)]
pub enum SessionAction {
    /// Send this text frame on the channel.
    SendFrame(String),
    /// Run this container job and report its outcome.
    StartContainerJob(ContainerPlan),
    /// Kill this container.
    KillContainer(String),
    /// Feed this buffered assignment back through `handle_assignment`.
    RunAssignment(JobData),
    /// A fatal orchestrator error: exit the agent.
    Shutdown,
}

pub enum ActionV {
    SendFrame(Seq<char>),
    StartContainerJob(PlanV),
    KillContainer(Seq<char>),
    RunAssignment(JobV),
    Shutdown,
}

impl View for SessionAction {
    type V = ActionV;

    open spec fn view(&self) -> ActionV {
        match self {
            SessionAction::SendFrame(s) => ActionV::SendFrame(s@),
            SessionAction::StartContainerJob(p) => ActionV::StartContainerJob(p@),
            SessionAction::KillContainer(c) => ActionV::KillContainer(c@),
            SessionAction::RunAssignment(j) => ActionV::RunAssignment(j@),
            SessionAction::Shutdown => ActionV::Shutdown,
        }
    }
}

pub open spec fn acts_view(a: Seq<SessionAction>) -> Seq<ActionV> {
    a.map_values(|x: SessionAction| x@)
}

pub open spec fn jobs_view(a: Seq<JobData>) -> Seq<JobV> {
    a.map_values(|x: JobData| x@)
}

/// The session over one orchestrator.
pub struct NodeConnection {
    pub orchestrator_url: String,
    pub capabilities: NodeCapabilities,
    pub auth_token: Option<String>,
    pub executor: JobExecutor,
    pub node_id: Option<String>,
    pub registered: bool,
    pub pending_jobs: Vec<JobData>,
}

/// The session as a mathematical value.
pub struct SessionV {
    pub orchestrator_url: Seq<char>,
    pub caps: CapsV,
    pub auth: Option<Seq<char>>,
    pub jobs: Seq<RJobV>,
    pub completed: u64,
    pub earnings: u64,
    pub node_id: Option<Seq<char>>,
    pub registered: bool,
    pub pending: Seq<JobV>,
}

impl View for NodeConnection {
    type V = SessionV;

    open spec fn view(&self) -> SessionV {
        SessionV {
            orchestrator_url: self.orchestrator_url@,
            caps: self.capabilities@,
            auth: opt_view(self.auth_token),
            jobs: self.executor.model(),
            completed: self.executor.total_jobs_completed,
            earnings: self.executor.total_earnings_cents,
            node_id: opt_view(self.node_id),
            registered: self.registered,
            pending: jobs_view(self.pending_jobs@),
        }
    }
}

// ---------------------------------------------------------------------------
// Frames the session emits
// ---------------------------------------------------------------------------

/// The registration frame a session state produces.
pub open spec fn register_frame_of(s: SessionV) -> Seq<char> {
    spec_print(enc_register(s.caps, s.auth))
}

/// The control-channel address derived from the orchestrator's address:
/// `https` becomes `wss`, `http` becomes `ws`, and the node endpoint is
/// appended.
pub open spec fn spec_ws_url(u: Seq<char>) -> Seq<char> {
    let base = if crate::text::has_prefix(u, "https://"@) {
        "wss://"@ + u.skip("https://"@.len() as int)
    } else if crate::text::has_prefix(u, "http://"@) {
        "ws://"@ + u.skip("http://"@.len() as int)
    } else {
        u
    };
    base + "/ws/node"@
}

/// Losing the transport: the connection is no longer registered; nothing
/// else changes.
pub open spec fn disconnect_step(s: SessionV) -> SessionV {
    SessionV { registered: false, ..s }
}

/// Reconnect idempotence: after the channel drops and reopens, the node
/// re-registers with a frame identical to the first one, and the reconnect
/// touched neither the running jobs, nor the counters, nor the buffered
/// assignments.
pub proof fn lemma_reconnect_idempotent(s: SessionV)
    ensures
        register_frame_of(disconnect_step(s)) == register_frame_of(s),
        disconnect_step(s).jobs == s.jobs,
        disconnect_step(s).completed == s.completed,
        disconnect_step(s).earnings == s.earnings,
        disconnect_step(s).pending == s.pending,
        disconnect_step(disconnect_step(s)) == disconnect_step(s),
{
}

// ---------------------------------------------------------------------------
// Assignment handling, as a specification
// ---------------------------------------------------------------------------

/// The two actions an assignment produces on a registered session: the
/// acknowledgement, then either the container plan or the immediate
/// failure frame.
pub open spec fn assign_acts(m: Seq<RJobV>, c: NodeConfig, job: JobV) -> Seq<ActionV> {
    let accepted = ActionV::SendFrame(spec_print(enc_job_status(job.id, StatusV::Accepted)));
    if assignment_rejected(m, c, job) {
        seq![
            accepted,
            ActionV::SendFrame(spec_print(enc_job_result(job.id, spec_reject_result(m, c, job)))),
        ]
    } else {
        seq![accepted, ActionV::StartContainerJob(spec_plan(job, c))]
    }
}

/// The table after an assignment is taken.
pub open spec fn assign_table(m: Seq<RJobV>, c: NodeConfig, job: JobV, now_ms: u64) -> Seq<RJobV> {
    if assignment_rejected(m, c, job) {
        m
    } else {
        m.push(RJobV { id: job.id, container_id: None, cancelled: false, started_at_ms: now_ms })
    }
}

// ---------------------------------------------------------------------------
// The session
// ---------------------------------------------------------------------------

impl NodeConnection {
    pub open spec fn wf(&self) -> bool {
        self.executor.wf()
    }

    pub fn new(orchestrator_url: &str, capabilities: NodeCapabilities, config: NodeConfig)
        -> (s: Self)
        requires
            config_wf(config),
        ensures
            s.wf(),
            s@.orchestrator_url == orchestrator_url@,
            s@.caps == capabilities@,
            s@.auth == opt_view(config.auth_token),
            s@.jobs.len() == 0,
            s@.completed == 0,
            s@.earnings == 0,
            s@.node_id is None,
            s@.registered == false,
            s@.pending.len() == 0,
            s.executor.config == config,
    {
        let auth_token: Option<String> = match &config.auth_token {
            Option::Some(t) => Some(t.clone()),
            Option::None => None,
        };
        let s = NodeConnection {
            orchestrator_url: orchestrator_url.to_owned(),
            capabilities,
            auth_token,
            executor: JobExecutor::new(config),
            node_id: None,
            registered: false,
            pending_jobs: Vec::new(),
        };
        proof {
            assert(jobs_view(s.pending_jobs@) =~= Seq::<JobV>::empty());
        }
        s
    }

    /// The control-channel address for the configured orchestrator: the
    /// scheme turned into its socket form, with the node endpoint appended.
    pub fn ws_url(&self) -> (r: String)
        ensures
            r@ == spec_ws_url(self.orchestrator_url@),
    {
        let s = self.orchestrator_url.as_str();
        let n = s.unicode_len();
        proof {
            reveal_strlit("https://");
            reveal_strlit("http://");
        }
        let mut out: String;
        if crate::text::str_has_prefix(s, "https://") {
            out = String::from_str("wss://");
            out.append(s.substring_char(8, n));
            proof {
                assert(s@.subrange(8, n as int) =~= s@.skip(8));
            }
        } else if crate::text::str_has_prefix(s, "http://") {
            out = String::from_str("ws://");
            out.append(s.substring_char(7, n));
            proof {
                assert(s@.subrange(7, n as int) =~= s@.skip(7));
            }
        } else {
            out = s.to_owned();
        }
        out.append("/ws/node");
        out
    }

    /// The registration frame: always the first frame on a fresh channel,
    /// carrying the immutable snapshot and the stored token.
    pub fn register_frame(&self) -> (r: String)
        ensures
            r@ == register_frame_of(self@),
    {
        let mut fs: Vec<(String, Json)> = Vec::new();
        proof {
            assert(jv_members(fs@) =~= Seq::<(Seq<char>, JVal)>::empty());
        }
        obj_field(&mut fs, "type", Json::Str(String::from_str("register")));
        obj_field(&mut fs, "capabilities", caps_to_json(&self.capabilities));
        obj_field(&mut fs, "auth_token", opt_str_to_json(&self.auth_token));
        proof {
            assert(jv_members(fs@) =~= enc_register(self.capabilities@,
                opt_view(self.auth_token))->Obj_0);
        }
        let j = Json::Obj(fs);
        print_json(&j)
    }

    /// The heartbeat frame: availability and the live table size. The
    /// reported `current_jobs` equals the running-job table's size, and
    /// `available` holds exactly when the table is below the limit.
    pub fn heartbeat_frame(&self) -> (r: String)
        requires
            self.wf(),
        ensures
            r@ == spec_print(enc_heartbeat(
                self@.jobs.len() < self.executor.config.limits.max_concurrent_jobs,
                self@.jobs.len() as u32,
            )),
    {
        let available = self.executor.is_available();
        let current_jobs = self.executor.current_job_count();
        let m = NodeMessage::Heartbeat { available, current_jobs };
        encode_node_message(&m)
    }

    /// Whether the registration reply is overdue on a fresh connection.
    pub fn registration_overdue(&self, waited_ms: u64) -> (r: bool)
        ensures
            r == (!self@.registered && waited_ms >= crate::REGISTRATION_DEADLINE_MS),
    {
        !self.registered && waited_ms >= crate::REGISTRATION_DEADLINE_MS
    }

    /// The transport dropped: the session is no longer registered; jobs in
    /// flight, counters and buffered assignments stay.
    pub fn on_disconnect(&mut self)
        ensures
            final(self)@ == disconnect_step(old(self)@),
            final(self).wf() == old(self).wf(),
    {
        self.registered = false;
    }

    /// Takes one assignment: before registration it is buffered; after,
    /// it is acknowledged and either started or immediately failed.
    pub fn handle_assignment(&mut self, job: JobData, now_ms: u64)
        -> (acts: Vec<SessionAction>)
        requires
            old(self).wf(),
        ensures
            final(self).wf(),
            final(self).executor.config == old(self).executor.config,
            final(self)@.orchestrator_url == old(self)@.orchestrator_url,
            final(self)@.caps == old(self)@.caps,
            final(self)@.auth == old(self)@.auth,
            final(self)@.node_id == old(self)@.node_id,
            final(self)@.registered == old(self)@.registered,
            final(self)@.completed == old(self)@.completed,
            final(self)@.earnings == old(self)@.earnings,
            !old(self)@.registered ==> {
                &&& final(self)@.pending == old(self)@.pending.push(job@)
                &&& final(self)@.jobs == old(self)@.jobs
                &&& acts@.len() == 0
            },
            old(self)@.registered ==> {
                &&& final(self)@.pending == old(self)@.pending
                &&& final(self)@.jobs == assign_table(old(self)@.jobs,
                    old(self).executor.config, job@, now_ms)
                &&& acts_view(acts@) == assign_acts(old(self)@.jobs,
                    old(self).executor.config, job@)
            },
    {
        if !self.registered {
            let ghost p0 = jobs_view(self.pending_jobs@);
            let ghost jv = job@;
            self.pending_jobs.push(job);
            proof {
                assert(jobs_view(self.pending_jobs@) =~= p0.push(jv));
            }
            Vec::new()
        } else {
            let mut acts: Vec<SessionAction> = Vec::new();
            let accepted = crate::protocol::job_status_frame(job.id.as_str(),
                JobStatusUpdate::Accepted);
            acts.push(SessionAction::SendFrame(accepted));
            match self.executor.begin_job(&job, now_ms) {
                Result::Ok(plan) => {
                    acts.push(SessionAction::StartContainerJob(plan));
                },
                Result::Err(r) => {
                    let frame = crate::protocol::job_result_frame(job.id.as_str(), r);
                    acts.push(SessionAction::SendFrame(frame));
                },
            }
            proof {
                assert(acts_view(acts@) =~= assign_acts(old(self)@.jobs,
                    old(self).executor.config, job@));
            }
            acts
        }
    }

    /// Closes a job out and yields its result frame: the one result frame
    /// this job ever gets, emitted exactly when it leaves the table.
    pub fn complete_job(&mut self, job_id: &str, timeout_seconds: u64,
        outcome: &crate::executor::ContainerOutcome, elapsed_ms: u64, logs: String)
        -> (frame: String)
        requires
            old(self).wf(),
        ensures
            final(self).wf(),
            final(self).executor.config == old(self).executor.config,
            final(self)@.registered == old(self)@.registered,
            final(self)@.pending == old(self)@.pending,
            final(self)@.completed >= old(self)@.completed,
            final(self)@.earnings >= old(self)@.earnings,
            (match crate::executor::find_idx(old(self)@.jobs, job_id@) {
                Option::Some(i) => final(self)@.jobs == old(self)@.jobs.remove(i),
                Option::None => final(self)@.jobs == old(self)@.jobs,
            }),
            frame@ == spec_print(enc_job_result(job_id@, crate::executor::spec_finish(
                timeout_seconds, outcome@, elapsed_ms, logs@,
                old(self).executor.config.pricing,
                old(self).executor.config.limits.cpu_cores))),
    {
        let result = self.executor.finish_job(job_id, timeout_seconds, outcome, elapsed_ms, logs);
        crate::protocol::job_result_frame(job_id, result)
    }

    /// Handles one inbound frame. A frame that does not decode is dropped
    /// and nothing changes. `registered` flushes the buffered assignments
    /// back to the caller; an assignment is taken as `handle_assignment`
    /// does; a cancellation kills at most one container; a fatal error code
    /// shuts the agent down; a configuration update is acknowledged by
    /// doing nothing.
    #[verifier::loop_isolation(false)]
    pub fn handle_frame(&mut self, text: &str, now_ms: u64) -> (acts: Vec<SessionAction>)
        requires
            old(self).wf(),
        ensures
            final(self).wf(),
            final(self).executor.config == old(self).executor.config,
            final(self)@.orchestrator_url == old(self)@.orchestrator_url,
            final(self)@.caps == old(self)@.caps,
            final(self)@.auth == old(self)@.auth,
            final(self)@.completed == old(self)@.completed,
            final(self)@.earnings == old(self)@.earnings,
            (match spec_dec_frame(text@) {
                Option::None => final(self)@ == old(self)@ && acts@.len() == 0,
                Option::Some(m) => match m {
                    OMsgV::Registered { node_id } => {
                        &&& final(self)@.registered == true
                        &&& final(self)@.node_id == Some(node_id)
                        &&& final(self)@.pending.len() == 0
                        &&& final(self)@.jobs == old(self)@.jobs
                        &&& acts_view(acts@) == old(self)@.pending.map_values(
                            |j: JobV| ActionV::RunAssignment(j))
                    },
                    OMsgV::JobAssignment { job } => {
                        &&& final(self)@.registered == old(self)@.registered
                        &&& final(self)@.node_id == old(self)@.node_id
                        &&& (!old(self)@.registered ==> {
                            &&& final(self)@.pending == old(self)@.pending.push(job)
                            &&& final(self)@.jobs == old(self)@.jobs
                            &&& acts@.len() == 0
                        })
                        &&& (old(self)@.registered ==> {
                            &&& final(self)@.pending == old(self)@.pending
                            &&& final(self)@.jobs == assign_table(old(self)@.jobs,
                                old(self).executor.config, job, now_ms)
                            &&& acts_view(acts@) == assign_acts(old(self)@.jobs,
                                old(self).executor.config, job)
                        })
                    },
                    OMsgV::CancelJob { job_id } => {
                        &&& final(self)@.registered == old(self)@.registered
                        &&& final(self)@.node_id == old(self)@.node_id
                        &&& final(self)@.pending == old(self)@.pending
                        &&& final(self)@.jobs == cancel_model(old(self)@.jobs, job_id).0
                        &&& acts_view(acts@) == (match cancel_model(old(self)@.jobs, job_id).1 {
                            Option::Some(c) => seq![ActionV::KillContainer(c)],
                            Option::None => Seq::<ActionV>::empty(),
                        })
                    },
                    OMsgV::ConfigUpdate { config } =>
                        final(self)@ == old(self)@ && acts@.len() == 0,
                    OMsgV::Error { code, message } => {
                        &&& final(self)@ == old(self)@
                        &&& acts_view(acts@) == (
                            if code == "auth_invalid"@ || code == "registration_rejected"@ {
                                seq![ActionV::Shutdown]
                            } else {
                                Seq::<ActionV>::empty()
                            })
                    },
                },
            }),
    {
        let decoded = decode_orchestrator_frame(text);
        match decoded {
            Option::None => {
                let acts: Vec<SessionAction> = Vec::new();
                acts
            },
            Option::Some(msg) => match msg {
                OrchestratorMessage::Registered { node_id } => {
                    let ghost nid = node_id@;
                    self.registered = true;
                    self.node_id = Some(node_id);
                    let mut acts: Vec<SessionAction> = Vec::new();
                    let ghost pend0 = old(self)@.pending;
                    proof {
                        assert(jobs_view(self.pending_jobs@) == pend0);
                        assert(pend0.skip(0) =~= pend0);
                        assert(acts_view(acts@) =~= pend0.take(0).map_values(
                            |j: JobV| ActionV::RunAssignment(j)));
                    }
                    let n = self.pending_jobs.len();
                    let mut i: usize = 0;
                    while i < n
                        invariant
                            0 <= i <= n,
                            n == pend0.len(),
                            self.pending_jobs@.len() == n - i,
                            jobs_view(self.pending_jobs@) == pend0.skip(i as int),
                            acts_view(acts@) == pend0.take(i as int).map_values(
                                |j: JobV| ActionV::RunAssignment(j)),
                            self.registered == true,
                            opt_view(self.node_id) == Some(nid),
                            self.executor == old(self).executor,
                            self.orchestrator_url == old(self).orchestrator_url,
                            self.capabilities == old(self).capabilities,
                            self.auth_token == old(self).auth_token,
                        decreases n - i,
                    {
                        let ghost acts0 = acts_view(acts@);
                        let ghost rem0 = jobs_view(self.pending_jobs@);
                        let j = self.pending_jobs.remove(0);
                        acts.push(SessionAction::RunAssignment(j));
                        proof {
                            assert(jobs_view(self.pending_jobs@) =~= rem0.skip(1));
                            assert(rem0.skip(1) =~= pend0.skip(i + 1));
                            assert(acts_view(acts@) =~= acts0.push(
                                ActionV::RunAssignment(rem0[0])));
                            assert(rem0[0] == pend0[i as int]);
                            assert(acts_view(acts@) =~= pend0.take(i + 1).map_values(
                                |jj: JobV| ActionV::RunAssignment(jj)));
                        }
                        i = i + 1;
                    }
                    proof {
                        assert(pend0.take(n as int) =~= pend0);
                        assert(jobs_view(self.pending_jobs@) =~= Seq::<JobV>::empty());
                    }
                    acts
                },
                OrchestratorMessage::JobAssignment { job } => {
                    self.handle_assignment(job, now_ms)
                },
                OrchestratorMessage::CancelJob { job_id } => {
                    let kill = self.executor.cancel(job_id.as_str());
                    let mut acts: Vec<SessionAction> = Vec::new();
                    match kill {
                        Option::Some(c) => {
                            acts.push(SessionAction::KillContainer(c));
                            proof {
                                assert(acts_view(acts@) =~= seq![acts@[0]@]);
                            }
                        },
                        Option::None => {},
                    }
                    proof {
                        if kill is None {
                            assert(acts_view(acts@) =~= Seq::<ActionV>::empty());
                        }
                    }
                    acts
                },
                OrchestratorMessage::ConfigUpdate { config } => {
                    let acts: Vec<SessionAction> = Vec::new();
                    acts
                },
                OrchestratorMessage::Error { code, message } => {
                    let mut acts: Vec<SessionAction> = Vec::new();
                    if str_eq(code.as_str(), "auth_invalid")
                        || str_eq(code.as_str(), "registration_rejected") {
                        acts.push(SessionAction::Shutdown);
                        proof {
                            assert(acts_view(acts@) =~= seq![ActionV::Shutdown]);
                        }
                    } else {
                        proof {
                            assert(acts_view(acts@) =~= Seq::<ActionV>::empty());
                        }
                    }
                    acts
                },
            },
        }
    }
}

} // verus!
