//! The job executor: accepts jobs, decides how each runs, tracks the
//! running-job table, prices completed work, and classifies outcomes.
//!
//! The executor holds no connection of its own. A caller runs the container
//! steps a `ContainerPlan` describes and reports the outcome back through
//! `finish_job`; every decision in between is made, and verified, here.

use vstd::prelude::*;
use crate::config::{NodeConfig, PricingConfig, config_wf};
use crate::json::{Json, JVal, spec_digits, print_digits};
use crate::protocol::{JobData, JobV, JobResultData, ResultV, jv_get, get_str};
use crate::hardware::strs_view;
use crate::text::{push_char, str_eq};

verus! {

// ---------------------------------------------------------------------------
// Payload reading
// ---------------------------------------------------------------------------

/// The payload's kind tag; anything but a string tag means a container job,
/// as the original wire contract has it.
pub open spec fn payload_type(p: JVal) -> Seq<char> {
    match jv_get(p, "type"@) {
        Option::Some(JVal::Str(t)) => t,
        _ => "docker"@,
    }
}

/// The string elements of a list, non-strings dropped.
pub open spec fn str_elems(xs: Seq<JVal>) -> Seq<Seq<char>>
    decreases xs.len(),
{
    if xs.len() == 0 {
        Seq::<Seq<char>>::empty()
    } else {
        match xs[0] {
            JVal::Str(s) => seq![s] + str_elems(xs.skip(1)),
            _ => str_elems(xs.skip(1)),
        }
    }
}

/// Environment members flattened to `KEY=VALUE`, non-string values dropped.
pub open spec fn env_elems(fs: Seq<(Seq<char>, JVal)>) -> Seq<Seq<char>>
    decreases fs.len(),
{
    if fs.len() == 0 {
        Seq::<Seq<char>>::empty()
    } else {
        match fs[0].1 {
            JVal::Str(v) => seq![fs[0].0 + seq!['='] + v] + env_elems(fs.skip(1)),
            _ => env_elems(fs.skip(1)),
        }
    }
}

/// The command list of a container payload, when one is given.
pub open spec fn docker_command(p: JVal) -> Option<Seq<Seq<char>>> {
    match jv_get(p, "command"@) {
        Option::Some(JVal::Arr(xs)) => Some(str_elems(xs)),
        _ => None,
    }
}

/// The environment of a container payload, when one is given.
pub open spec fn docker_env(p: JVal) -> Option<Seq<Seq<char>>> {
    match jv_get(p, "env"@) {
        Option::Some(JVal::Obj(fs)) => Some(env_elems(fs)),
        _ => None,
    }
}

/// Why a payload is refused without running anything, with the exact error
/// text; a container payload with an image proceeds.
pub open spec fn reject_reason(p: JVal) -> Option<Seq<char>> {
    let t = payload_type(p);
    if t == "docker"@ {
        match get_str(p, "image"@) {
            Option::Some(_) => None,
            Option::None => Some("Missing 'image' in docker job payload"@),
        }
    } else if t == "llm-inference"@ {
        match get_str(p, "prompt"@) {
            Option::Some(_) => Some("LLM inference not yet implemented - requires MCP adapter"@),
            Option::None => Some("Missing 'prompt' in LLM job payload"@),
        }
    } else if t == "image-gen"@ {
        Some("Image generation not yet implemented - requires MCP adapter"@)
    } else if t == "mcp"@ {
        match get_str(p, "adapter"@) {
            Option::None => Some("Missing 'adapter' in MCP job payload"@),
            Option::Some(adapter) => match get_str(p, "method"@) {
                Option::None => Some("Missing 'method' in MCP job payload"@),
                Option::Some(_) => Some("MCP adapter '"@ + adapter + "' not yet implemented"@),
            },
        }
    } else {
        Some("Unknown job type: "@ + t)
    }
}

// ---------------------------------------------------------------------------
// Plans and outcomes
// ---------------------------------------------------------------------------

/// Everything a container engine needs to run one job.
#[derive(Debug)]
pub struct ContainerPlan {
    pub job_id: String,
    pub container_name: String,
    pub image: String,
    pub command: Option<Vec<String>>,
    pub env: Option<Vec<String>>,
    pub memory_bytes: Option<i64>,
    pub nano_cpus: Option<i64>,
    pub timeout_seconds: u64,
}

pub struct PlanV {
    pub job_id: Seq<char>,
    pub container_name: Seq<char>,
    pub image: Seq<char>,
    pub command: Option<Seq<Seq<char>>>,
    pub env: Option<Seq<Seq<char>>>,
    pub memory_bytes: Option<i64>,
    pub nano_cpus: Option<i64>,
    pub timeout_seconds: u64,
}

pub open spec fn opt_strs_view(o: Option<Vec<String>>) -> Option<Seq<Seq<char>>> {
    match o {
        Option::Some(v) => Some(strs_view(v@)),
        Option::None => None,
    }
}

impl View for ContainerPlan {
    type V = PlanV;

    open spec fn view(&self) -> PlanV {
        PlanV {
            job_id: self.job_id@,
            container_name: self.container_name@,
            image: self.image@,
            command: opt_strs_view(self.command),
            env: opt_strs_view(self.env),
            memory_bytes: self.memory_bytes,
            nano_cpus: self.nano_cpus,
            timeout_seconds: self.timeout_seconds,
        }
    }
}

/// The plan a well-formed container payload produces: the job's image,
/// command and environment, the configured resource caps, and a container
/// named after the job.
pub open spec fn spec_plan(job: JobV, c: NodeConfig) -> PlanV {
    PlanV {
        job_id: job.id,
        container_name: "rhizos-"@ + job.id,
        image: get_str(job.payload, "image"@).unwrap(),
        command: docker_command(job.payload),
        env: docker_env(job.payload),
        memory_bytes: match c.limits.max_memory_mb {
            Option::Some(m) => Some((m * 0x10_0000) as i64),
            Option::None => None,
        },
        nano_cpus: match c.limits.cpu_cores {
            Option::Some(n) => Some(((n as int) * 1_000_000_000) as i64),
            Option::None => None,
        },
        timeout_seconds: job.timeout_seconds,
    }
}

/// How a container run ended, as the engine reports it.
#[derive(Debug)]
pub enum ContainerOutcome {
    /// The container left the running state with this status code.
    Exited(i64),
    /// The deadline fired first.
    TimedOut,
    /// The engine failed before an exit code existed.
    EngineError(String),
}

pub enum OutcomeV {
    Exited(i64),
    TimedOut,
    EngineError(Seq<char>),
}

impl View for ContainerOutcome {
    type V = OutcomeV;

    open spec fn view(&self) -> OutcomeV {
        match self {
            ContainerOutcome::Exited(n) => OutcomeV::Exited(*n),
            ContainerOutcome::TimedOut => OutcomeV::TimedOut,
            ContainerOutcome::EngineError(e) => OutcomeV::EngineError(e@),
        }
    }
}

// ---------------------------------------------------------------------------
// Cost
// ---------------------------------------------------------------------------

/// Cents per hour while this job runs: the GPU rate plus the CPU rate for
/// each allocated core, one core when no cap is set.
pub open spec fn cost_rate(p: PricingConfig, cores: Option<u32>) -> int {
    p.gpu_hour_cents + p.cpu_core_hour_cents * (match cores {
        Option::Some(n) => n as int,
        Option::None => 1int,
    })
}

/// The charge for a successful job: the hourly rate scaled by wall time and
/// rounded to the nearest cent, floored by the minimum, clipped to the field.
pub open spec fn spec_cost(elapsed_ms: u64, p: PricingConfig, cores: Option<u32>) -> u32 {
    let raw = (elapsed_ms * cost_rate(p, cores) + 1_800_000) / 3_600_000;
    let floored = if raw < p.minimum_cents { p.minimum_cents as int } else { raw };
    if floored > u32::MAX { u32::MAX } else { floored as u32 }
}

/// Computes the charge for a completed job.
pub fn cost_cents(elapsed_ms: u64, p: &PricingConfig, cores: Option<u32>) -> (c: u32)
    ensures
        c == spec_cost(elapsed_ms, *p, cores),
        c >= p.minimum_cents,
{
    let core_count: u64 = match cores {
        Option::Some(n) => n as u64,
        Option::None => 1,
    };
    proof {
        assert((p.cpu_core_hour_cents as u128) * (core_count as u128) <= 0xffff_fffe_0000_0001)
            by (nonlinear_arith)
            requires
                p.cpu_core_hour_cents as u128 <= 0xffff_ffff,
                core_count as u128 <= 0xffff_ffff;
    }
    let rate: u128 = p.gpu_hour_cents as u128 + p.cpu_core_hour_cents as u128 * core_count as u128;
    proof {
        assert(rate == cost_rate(*p, cores));
        assert(elapsed_ms as u128 * rate <= 0xffff_ffff_ffff_ffff * 0xffff_ffff_0000_0000)
            by (nonlinear_arith)
            requires
                elapsed_ms as u128 <= 0xffff_ffff_ffff_ffff,
                rate <= 0xffff_ffff_0000_0000;
    }
    let raw: u128 = (elapsed_ms as u128 * rate + 1_800_000) / 3_600_000;
    let floored: u128 = if raw < p.minimum_cents as u128 { p.minimum_cents as u128 } else { raw };
    if floored > 0xffff_ffff {
        u32::MAX
    } else {
        floored as u32
    }
}

// ---------------------------------------------------------------------------
// The running-job table
// ---------------------------------------------------------------------------

/// One in-flight job: its identity, the container it runs in once that
/// exists, whether a cancel has been seen, and when it started.
#[derive(Debug)]
pub struct RunningJob {
    pub id: String,
    pub container_id: Option<String>,
    pub cancelled: bool,
    pub started_at_ms: u64,
}

pub struct RJobV {
    pub id: Seq<char>,
    pub container_id: Option<Seq<char>>,
    pub cancelled: bool,
    pub started_at_ms: u64,
}

impl View for RunningJob {
    type V = RJobV;

    open spec fn view(&self) -> RJobV {
        RJobV {
            id: self.id@,
            container_id: crate::hardware::opt_view(self.container_id),
            cancelled: self.cancelled,
            started_at_ms: self.started_at_ms,
        }
    }
}

/// The position of a job in the table, front first.
pub open spec fn find_idx(m: Seq<RJobV>, id: Seq<char>) -> Option<int>
    decreases m.len(),
{
    if m.len() == 0 {
        None
    } else if m[0].id == id {
        Some(0)
    } else {
        match find_idx(m.skip(1), id) {
            Option::Some(i) => Some(i + 1),
            Option::None => None,
        }
    }
}

pub open spec fn has_job(m: Seq<RJobV>, id: Seq<char>) -> bool {
    find_idx(m, id) is Some
}

pub proof fn lemma_find_idx_spec(m: Seq<RJobV>, id: Seq<char>)
    ensures
        (match find_idx(m, id) {
            Option::Some(i) => 0 <= i < m.len() && m[i].id == id
                && forall|k: int| 0 <= k < i ==> (#[trigger] m[k]).id != id,
            Option::None => forall|k: int| 0 <= k < m.len() ==> (#[trigger] m[k]).id != id,
        }),
    decreases m.len(),
{
    if m.len() > 0 && m[0].id != id {
        lemma_find_idx_spec(m.skip(1), id);
        let sub = find_idx(m.skip(1), id);
        if sub is Some {
            let i = sub.unwrap();
            assert(m.skip(1)[i] == m[i + 1]);
            assert forall|k: int| 0 <= k < i + 1 implies (#[trigger] m[k]).id != id by {
                if k > 0 {
                    assert(m.skip(1)[k - 1] == m[k]);
                    assert((m.skip(1)[k - 1]).id != id);
                }
            }
        } else {
            assert forall|k: int| 0 <= k < m.len() implies (#[trigger] m[k]).id != id by {
                if k > 0 {
                    assert(m.skip(1)[k - 1] == m[k]);
                    assert((m.skip(1)[k - 1]).id != id);
                }
            }
        }
    }
}

pub proof fn lemma_find_idx_unique(m: Seq<RJobV>, id: Seq<char>, i: int)
    requires
        0 <= i < m.len(),
        m[i].id == id,
        forall|a: int, b: int| 0 <= a < b < m.len()
            ==> (#[trigger] m[a]).id != (#[trigger] m[b]).id,
    ensures
        find_idx(m, id) == Some(i),
{
    lemma_find_idx_spec(m, id);
    match find_idx(m, id) {
        Option::Some(j) => {
            if j < i {
                assert(m[j].id != m[i].id);
            } else if j > i {
                assert(m[i].id != m[j].id);
            }
        },
        Option::None => {
            assert(m[i].id != id);
        },
    }
}

// ---------------------------------------------------------------------------
// The executor
// ---------------------------------------------------------------------------

/// The invariants the table keeps: no job listed twice, and never more
/// entries than the configured concurrency.
pub open spec fn table_wf(m: Seq<RJobV>, max_jobs: u32) -> bool {
    &&& forall|a: int, b: int| 0 <= a < b < m.len()
        ==> (#[trigger] m[a]).id != (#[trigger] m[b]).id
    &&& m.len() <= max_jobs
}

pub struct JobExecutor {
    pub config: NodeConfig,
    pub jobs: Vec<RunningJob>,
    pub total_jobs_completed: u64,
    pub total_earnings_cents: u64,
}

/// A failed result with the given error text: nothing produced, nothing
/// billed.
pub open spec fn fail_result(msg: Seq<char>, elapsed_ms: u64) -> ResultV {
    ResultV {
        success: false,
        outputs: None,
        error: Some(msg),
        execution_time_ms: elapsed_ms,
        actual_cost_cents: 0,
    }
}

/// The single inline output of a successful container run: its collected log
/// text, tagged as plain text.
pub open spec fn inline_output(logs: Seq<char>) -> JVal {
    JVal::Obj(seq![
        ("type"@, JVal::Str("inline"@)),
        ("data"@, JVal::Str(logs)),
        ("mime_type"@, JVal::Str("text/plain"@)),
    ])
}

/// The rendering of a signed number in error text.
pub open spec fn int_text(n: int) -> Seq<char> {
    if n < 0 {
        seq!['-'] + spec_digits((-n) as nat)
    } else {
        spec_digits(n as nat)
    }
}

/// How an outcome is classified: exit zero succeeds and is billed; a timeout,
/// a non-zero exit and an engine failure each fail with their exact error
/// text and bill nothing.
pub open spec fn spec_finish(timeout_seconds: u64, o: OutcomeV, elapsed_ms: u64,
    logs: Seq<char>, p: PricingConfig, cores: Option<u32>) -> ResultV {
    match o {
        OutcomeV::Exited(code) => {
            if code == 0 {
                ResultV {
                    success: true,
                    outputs: Some(seq![inline_output(logs)]),
                    error: None,
                    execution_time_ms: elapsed_ms,
                    actual_cost_cents: spec_cost(elapsed_ms, p, cores),
                }
            } else {
                fail_result("Container exited with code "@ + int_text(code as int)
                    + ": "@ + logs, elapsed_ms)
            }
        },
        OutcomeV::TimedOut => fail_result("Job timed out after "@
            + spec_digits(timeout_seconds as nat) + " seconds"@, elapsed_ms),
        OutcomeV::EngineError(e) => fail_result("Container error: "@ + e, elapsed_ms),
    }
}

impl JobExecutor {
    /// The table as a mathematical value.
    pub open spec fn model(&self) -> Seq<RJobV> {
        self.jobs@.map_values(|r: RunningJob| r@)
    }

    pub open spec fn wf(&self) -> bool {
        &&& table_wf(self.model(), self.config.limits.max_concurrent_jobs)
        &&& config_wf(self.config)
    }

    pub fn new(config: NodeConfig) -> (e: Self)
        requires
            config_wf(config),
        ensures
            e.wf(),
            e.config == config,
            e.model().len() == 0,
            e.total_jobs_completed == 0,
            e.total_earnings_cents == 0,
    {
        let e = JobExecutor {
            config,
            jobs: Vec::new(),
            total_jobs_completed: 0,
            total_earnings_cents: 0,
        };
        proof {
            assert(e.model() =~= Seq::<RJobV>::empty());
        }
        e
    }

    /// Whether a further job may be accepted.
    pub fn is_available(&self) -> (b: bool)
        ensures
            b == (self.model().len() < self.config.limits.max_concurrent_jobs),
    {
        self.jobs.len() < self.config.limits.max_concurrent_jobs as usize
    }

    /// The current concurrency: the size of the running-job table.
    pub fn current_job_count(&self) -> (n: u32)
        requires
            self.wf(),
        ensures
            n == self.model().len(),
    {
        self.jobs.len() as u32
    }

    /// Finds a job's position in the table.
    #[verifier::loop_isolation(false)]
    fn position_of(&self, job_id: &str) -> (r: Option<usize>)
        ensures
            (match r {
                Option::Some(i) => find_idx(self.model(), job_id@) == Some(i as int)
                    && i < self.jobs@.len(),
                Option::None => find_idx(self.model(), job_id@) is None,
            }),
    {
        let n = self.jobs.len();
        let mut i: usize = 0;
        proof {
            lemma_find_idx_spec(self.model(), job_id@);
        }
        while i < n
            invariant
                0 <= i <= n,
                forall|k: int| 0 <= k < i ==> (#[trigger] self.model()[k]).id != job_id@,
            decreases n - i,
        {
            if str_eq(self.jobs[i].id.as_str(), job_id) {
                proof {
                    lemma_find_idx_spec(self.model(), job_id@);
                    assert(self.model()[i as int].id == job_id@);
                    let found = find_idx(self.model(), job_id@);
                    if found is Some {
                        let j = found.unwrap();
                        if j < i {
                            assert(self.model()[j].id != job_id@);
                        } else if j > i {
                            assert(self.model()[i as int].id != job_id@);
                        }
                    } else {
                        assert(self.model()[i as int].id != job_id@);
                    }
                }
                return Some(i);
            }
            i = i + 1;
        }
        None
    }
}

/// The table after a cancel, and the container the engine must kill, if any:
/// the first cancel of a job with a container yields its kill; any further
/// cancel of the same job yields none.
pub open spec fn cancel_model(m: Seq<RJobV>, id: Seq<char>) -> (Seq<RJobV>, Option<Seq<char>>) {
    match find_idx(m, id) {
        Option::Some(i) => (
            m.update(i, RJobV { cancelled: true, ..m[i] }),
            if !m[i].cancelled { m[i].container_id } else { None },
        ),
        Option::None => (m, None),
    }
}

/// Whether an assignment is refused without running anything: the node is
/// at capacity, the id is already in the table, or no handler runs the
/// payload.
pub open spec fn assignment_rejected(m: Seq<RJobV>, c: NodeConfig, job: JobV) -> bool {
    ||| m.len() >= c.limits.max_concurrent_jobs
    ||| has_job(m, job.id)
    ||| reject_reason(job.payload) is Some
}

/// The immediate failed result of a refused assignment, with its exact
/// error text.
pub open spec fn spec_reject_result(m: Seq<RJobV>, c: NodeConfig, job: JobV) -> ResultV {
    if m.len() >= c.limits.max_concurrent_jobs {
        fail_result("Node at capacity"@, 0)
    } else if has_job(m, job.id) {
        fail_result("Job already running"@, 0)
    } else {
        fail_result(reject_reason(job.payload).unwrap(), 0)
    }
}

impl JobExecutor {
    /// Takes one assignment. A node at capacity, a repeated job id, and a
    /// payload that no handler runs are refused with an immediate failed
    /// result and no table entry; a container payload with an image joins
    /// the table and yields the plan the engine runs.
    pub fn begin_job(&mut self, job: &JobData, now_ms: u64) -> (res: Result<ContainerPlan, JobResultData>)
        requires
            old(self).wf(),
        ensures
            final(self).wf(),
            final(self).config == old(self).config,
            final(self).total_jobs_completed == old(self).total_jobs_completed,
            final(self).total_earnings_cents == old(self).total_earnings_cents,
            (match res {
                Result::Ok(plan) => {
                    &&& !assignment_rejected(old(self).model(), old(self).config, job@)
                    &&& plan@ == spec_plan(job@, old(self).config)
                    &&& final(self).model() == old(self).model().push(RJobV {
                        id: job.id@,
                        container_id: None,
                        cancelled: false,
                        started_at_ms: now_ms,
                    })
                },
                Result::Err(r) => {
                    &&& assignment_rejected(old(self).model(), old(self).config, job@)
                    &&& final(self).model() == old(self).model()
                    &&& r@ == spec_reject_result(old(self).model(), old(self).config, job@)
                },
            }),
    {
        if self.jobs.len() >= self.config.limits.max_concurrent_jobs as usize {
            return Err(make_fail("Node at capacity", 0));
        }
        match self.position_of(job.id.as_str()) {
            Option::Some(_) => {
                return Err(make_fail("Job already running", 0));
            },
            Option::None => {},
        }
        let t = payload_type_of(&job.payload);
        if str_eq(t.as_str(), "docker") {
            match crate::protocol::get_string(&job.payload, "image") {
                Option::None => Err(make_fail("Missing 'image' in docker job payload", 0)),
                Option::Some(image) => {
                    let mut container_name = String::from_str("rhizos-");
                    container_name.append(job.id.as_str());
                    let memory_bytes: Option<i64> = match self.config.limits.max_memory_mb {
                        Option::Some(m) => {
                            proof {
                                assert(config_wf(self.config));
                                assert(m <= 0x7ff_ffff_ffff);
                                vstd::arithmetic::mul::lemma_mul_inequality(
                                    m as int, 0x7ff_ffff_ffff, 0x10_0000);
                                assert(0x7ff_ffff_ffff * 0x10_0000 == 0x7fff_ffff_fff0_0000int)
                                    by (nonlinear_arith);
                                assert((m as int) * 0x10_0000 <= 0x7fff_ffff_fff0_0000);
                                vstd::arithmetic::mul::lemma_mul_nonnegative(
                                    m as int, 0x10_0000);
                            }
                            let bytes: u64 = m * 0x10_0000;
                            Some(bytes as i64)
                        },
                        Option::None => None,
                    };
                    let nano_cpus: Option<i64> = match self.config.limits.cpu_cores {
                        Option::Some(n) => Some((n as i64) * 1_000_000_000),
                        Option::None => None,
                    };
                    let plan = ContainerPlan {
                        job_id: job.id.clone(),
                        container_name,
                        image,
                        command: command_of(&job.payload),
                        env: env_of(&job.payload),
                        memory_bytes,
                        nano_cpus,
                        timeout_seconds: job.timeout_seconds,
                    };
                    let ghost m0 = self.model();
                    self.jobs.push(RunningJob {
                        id: job.id.clone(),
                        container_id: None,
                        cancelled: false,
                        started_at_ms: now_ms,
                    });
                    proof {
                        let entry = RJobV {
                            id: job.id@,
                            container_id: None,
                            cancelled: false,
                            started_at_ms: now_ms,
                        };
                        assert(self.model() =~= m0.push(entry));
                        lemma_find_idx_spec(m0, job.id@);
                        assert forall|a: int, b: int| 0 <= a < b < self.model().len()
                            implies (#[trigger] self.model()[a]).id
                                != (#[trigger] self.model()[b]).id by {
                            if b == m0.len() {
                                assert(self.model()[a].id == m0[a].id);
                                assert(m0[a].id != job.id@);
                            }
                        }
                    }
                    Ok(plan)
                },
            }
        } else if str_eq(t.as_str(), "llm-inference") {
            match crate::protocol::get_string(&job.payload, "prompt") {
                Option::Some(_) => Err(make_fail(
                    "LLM inference not yet implemented - requires MCP adapter", 0)),
                Option::None => Err(make_fail("Missing 'prompt' in LLM job payload", 0)),
            }
        } else if str_eq(t.as_str(), "image-gen") {
            Err(make_fail("Image generation not yet implemented - requires MCP adapter", 0))
        } else if str_eq(t.as_str(), "mcp") {
            match crate::protocol::get_string(&job.payload, "adapter") {
                Option::None => Err(make_fail("Missing 'adapter' in MCP job payload", 0)),
                Option::Some(adapter) => {
                    match crate::protocol::get_string(&job.payload, "method") {
                        Option::None => Err(make_fail("Missing 'method' in MCP job payload", 0)),
                        Option::Some(_) => {
                            let mut msg = String::from_str("MCP adapter '");
                            msg.append(adapter.as_str());
                            msg.append("' not yet implemented");
                            Err(JobResultData {
                                success: false,
                                outputs: None,
                                error: Some(msg),
                                execution_time_ms: 0,
                                actual_cost_cents: 0,
                            })
                        },
                    }
                },
            }
        } else {
            let mut msg = String::from_str("Unknown job type: ");
            msg.append(t.as_str());
            Err(JobResultData {
                success: false,
                outputs: None,
                error: Some(msg),
                execution_time_ms: 0,
                actual_cost_cents: 0,
            })
        }
    }

    /// Records the container a job runs in, once the engine created it.
    /// An unknown id changes nothing.
    pub fn attach_container(&mut self, job_id: &str, container_id: String)
        requires
            old(self).wf(),
        ensures
            final(self).wf(),
            final(self).config == old(self).config,
            final(self).total_jobs_completed == old(self).total_jobs_completed,
            final(self).total_earnings_cents == old(self).total_earnings_cents,
            (match find_idx(old(self).model(), job_id@) {
                Option::Some(i) => final(self).model() == old(self).model().update(i, RJobV {
                    container_id: Some(container_id@),
                    ..old(self).model()[i]
                }),
                Option::None => final(self).model() == old(self).model(),
            }),
    {
        match self.position_of(job_id) {
            Option::Some(i) => {
                let ghost m0 = self.model();
                let entry = self.jobs.remove(i);
                self.jobs.insert(i, RunningJob {
                    container_id: Some(container_id),
                    ..entry
                });
                proof {
                    let target = RJobV { container_id: Some(container_id@), ..m0[i as int] };
                    assert(self.model() =~= m0.update(i as int, target));
                    assert forall|a: int, b: int| 0 <= a < b < self.model().len()
                        implies (#[trigger] self.model()[a]).id
                            != (#[trigger] self.model()[b]).id by {
                        assert(self.model()[a].id == m0[a].id);
                        assert(self.model()[b].id == m0[b].id);
                    }
                }
            },
            Option::None => {},
        }
    }

    /// Marks a job cancelled. Returns the container to kill on the first
    /// cancel of a running container; repeated cancels, jobs without a
    /// container yet, and unknown ids kill nothing.
    pub fn cancel(&mut self, job_id: &str) -> (kill: Option<String>)
        requires
            old(self).wf(),
        ensures
            final(self).wf(),
            final(self).config == old(self).config,
            final(self).total_jobs_completed == old(self).total_jobs_completed,
            final(self).total_earnings_cents == old(self).total_earnings_cents,
            final(self).model() == cancel_model(old(self).model(), job_id@).0,
            crate::hardware::opt_view(kill) == cancel_model(old(self).model(), job_id@).1,
    {
        match self.position_of(job_id) {
            Option::Some(i) => {
                let ghost m0 = self.model();
                let entry = self.jobs.remove(i);
                let was_cancelled = entry.cancelled;
                let kill: Option<String> = if !was_cancelled {
                    match &entry.container_id {
                        Option::Some(c) => Some(c.clone()),
                        Option::None => None,
                    }
                } else {
                    None
                };
                self.jobs.insert(i, RunningJob {
                    cancelled: true,
                    ..entry
                });
                proof {
                    let target = RJobV { cancelled: true, ..m0[i as int] };
                    assert(self.model() =~= m0.update(i as int, target));
                    assert forall|a: int, b: int| 0 <= a < b < self.model().len()
                        implies (#[trigger] self.model()[a]).id
                            != (#[trigger] self.model()[b]).id by {
                        assert(self.model()[a].id == m0[a].id);
                        assert(self.model()[b].id == m0[b].id);
                    }
                }
                kill
            },
            Option::None => None,
        }
    }

    /// Closes a job out: removes its table entry, classifies the outcome,
    /// and on success bills it and counts it. Failed work bills nothing.
    pub fn finish_job(&mut self, job_id: &str, timeout_seconds: u64,
        outcome: &ContainerOutcome, elapsed_ms: u64, logs: String) -> (r: JobResultData)
        requires
            old(self).wf(),
        ensures
            final(self).wf(),
            final(self).config == old(self).config,
            (match find_idx(old(self).model(), job_id@) {
                Option::Some(i) => final(self).model() == old(self).model().remove(i),
                Option::None => final(self).model() == old(self).model(),
            }),
            r@ == spec_finish(timeout_seconds, outcome@, elapsed_ms, logs@,
                old(self).config.pricing, old(self).config.limits.cpu_cores),
            !r.success ==> r.actual_cost_cents == 0,
            r.success ==> r.actual_cost_cents >= old(self).config.pricing.minimum_cents,
            final(self).total_jobs_completed >= old(self).total_jobs_completed,
            final(self).total_earnings_cents >= old(self).total_earnings_cents,
            r.success ==> final(self).total_jobs_completed
                == (if old(self).total_jobs_completed < u64::MAX {
                    old(self).total_jobs_completed + 1
                } else {
                    old(self).total_jobs_completed as int
                }),
            !r.success ==> final(self).total_jobs_completed == old(self).total_jobs_completed,
    {
        match self.position_of(job_id) {
            Option::Some(i) => {
                let ghost m0 = self.model();
                let _ = self.jobs.remove(i);
                proof {
                    assert(self.model() =~= m0.remove(i as int));
                    assert forall|a: int, b: int| 0 <= a < b < self.model().len()
                        implies (#[trigger] self.model()[a]).id
                            != (#[trigger] self.model()[b]).id by {
                        let a0 = if a < i { a } else { a + 1 };
                        let b0 = if b < i { b } else { b + 1 };
                        assert(self.model()[a].id == m0[a0].id);
                        assert(self.model()[b].id == m0[b0].id);
                    }
                }
            },
            Option::None => {},
        }
        match outcome {
            ContainerOutcome::Exited(code) => {
                if *code == 0 {
                    let cost = cost_cents(elapsed_ms, &self.config.pricing,
                        self.config.limits.cpu_cores);
                    if self.total_jobs_completed < u64::MAX {
                        self.total_jobs_completed = self.total_jobs_completed + 1;
                    }
                    if cost as u64 <= u64::MAX - self.total_earnings_cents {
                        self.total_earnings_cents = self.total_earnings_cents + cost as u64;
                    } else {
                        self.total_earnings_cents = u64::MAX;
                    }
                    let ghost logs_v = logs@;
                    let mut fields: Vec<(String, Json)> = Vec::new();
                    fields.push((String::from_str("type"),
                        Json::Str(String::from_str("inline"))));
                    fields.push((String::from_str("data"), Json::Str(logs)));
                    fields.push((String::from_str("mime_type"),
                        Json::Str(String::from_str("text/plain"))));
                    proof {
                        crate::json::lemma_jv_members(fields@);
                        assert(fields@.len() == 3);
                        assert(crate::json::jv_members(fields@)[0]
                            == (fields@[0].0@, fields@[0].1.jv()));
                        assert(crate::json::jv_members(fields@)[1]
                            == (fields@[1].0@, fields@[1].1.jv()));
                        assert(crate::json::jv_members(fields@)[2]
                            == (fields@[2].0@, fields@[2].1.jv()));
                        assert(fields@[1].1.jv() == JVal::Str(logs_v));
                        assert(crate::json::jv_members(fields@) =~= inline_output(logs_v)->Obj_0);
                    }
                    let output = Json::Obj(fields);
                    let ghost outv = output@;
                    proof {
                        assert(outv == inline_output(logs_v));
                    }
                    let mut outputs: Vec<Json> = Vec::new();
                    outputs.push(output);
                    proof {
                        crate::json::lemma_jv_seq(outputs@);
                        assert(crate::json::jv_seq(outputs@)[0] == outputs@[0].jv());
                        assert(crate::json::jv_seq(outputs@) =~= seq![outv]);
                    }
                    JobResultData {
                        success: true,
                        outputs: Some(outputs),
                        error: None,
                        execution_time_ms: elapsed_ms,
                        actual_cost_cents: cost,
                    }
                } else {
                    let mut msg = String::from_str("Container exited with code ");
                    push_int(&mut msg, *code);
                    msg.append(": ");
                    msg.append(logs.as_str());
                    JobResultData {
                        success: false,
                        outputs: None,
                        error: Some(msg),
                        execution_time_ms: elapsed_ms,
                        actual_cost_cents: 0,
                    }
                }
            },
            ContainerOutcome::TimedOut => {
                let mut msg = String::from_str("Job timed out after ");
                print_digits(timeout_seconds, &mut msg);
                msg.append(" seconds");
                JobResultData {
                    success: false,
                    outputs: None,
                    error: Some(msg),
                    execution_time_ms: elapsed_ms,
                    actual_cost_cents: 0,
                }
            },
            ContainerOutcome::EngineError(e) => {
                let mut msg = String::from_str("Container error: ");
                msg.append(e.as_str());
                JobResultData {
                    success: false,
                    outputs: None,
                    error: Some(msg),
                    execution_time_ms: elapsed_ms,
                    actual_cost_cents: 0,
                }
            },
        }
    }
}

/// A second cancel of the same job changes nothing and kills nothing: the
/// table is already marked and at most one kill signal ever leaves.
pub proof fn lemma_cancel_idempotent(m: Seq<RJobV>, id: Seq<char>)
    ensures
        cancel_model(cancel_model(m, id).0, id).0 == cancel_model(m, id).0,
        cancel_model(cancel_model(m, id).0, id).1 is None,
{
    match find_idx(m, id) {
        Option::Some(i) => {
            lemma_find_idx_spec(m, id);
            let m1 = cancel_model(m, id).0;
            lemma_find_idx_stable(m, m1, id);
            assert(find_idx(m1, id) == find_idx(m, id));
            assert(m1[i].cancelled);
            assert(m1.update(i, RJobV { cancelled: true, ..m1[i] }) =~= m1);
        },
        Option::None => {},
    }
}

/// Two tables whose entries carry the same ids are searched alike.
proof fn lemma_find_idx_stable(m1: Seq<RJobV>, m2: Seq<RJobV>, id: Seq<char>)
    requires
        m1.len() == m2.len(),
        forall|k: int| 0 <= k < m1.len() ==> (#[trigger] m1[k]).id == (#[trigger] m2[k]).id,
    ensures
        find_idx(m1, id) == find_idx(m2, id),
    decreases m1.len(),
{
    if m1.len() > 0 {
        assert(forall|k: int| 0 <= k < m1.skip(1).len()
            ==> (#[trigger] m1.skip(1)[k]).id == m1[k + 1].id);
        assert(forall|k: int| 0 <= k < m2.skip(1).len()
            ==> (#[trigger] m2.skip(1)[k]).id == m2[k + 1].id);
        lemma_find_idx_stable(m1.skip(1), m2.skip(1), id);
    }
}

// ---------------------------------------------------------------------------
// The life of one job
// ---------------------------------------------------------------------------

/// The states one job passes through.
pub enum JobPhase {
    Pending,
    Accepted,
    Preparing,
    Running,
    Completed,
    Failed,
    Cancelled,
}

/// The events that move a job along.
pub enum JobEvent {
    Accept,
    Prepare,
    Start,
    Finish { ok: bool },
    Cancel,
}

pub open spec fn is_terminal(p: JobPhase) -> bool {
    p is Completed || p is Failed || p is Cancelled
}

/// One lifecycle step: the next phase, and whether this step emits the
/// job's result frame. Terminal phases absorb every event and emit nothing;
/// the result is emitted exactly on the step into a terminal phase.
pub open spec fn phase_step(p: JobPhase, e: JobEvent) -> (JobPhase, bool) {
    if is_terminal(p) {
        (p, false)
    } else {
        match e {
            JobEvent::Accept => (JobPhase::Accepted, false),
            JobEvent::Prepare => (JobPhase::Preparing, false),
            JobEvent::Start => (JobPhase::Running, false),
            JobEvent::Finish { ok } => (
                if ok { JobPhase::Completed } else { JobPhase::Failed },
                true,
            ),
            JobEvent::Cancel => (JobPhase::Cancelled, true),
        }
    }
}

/// The phase after a run of events, and how many result frames the run
/// emitted.
pub open spec fn run_events(p: JobPhase, es: Seq<JobEvent>) -> (JobPhase, nat)
    decreases es.len(),
{
    if es.len() == 0 {
        (p, 0)
    } else {
        let (p1, emitted) = phase_step(p, es[0]);
        let (p2, count) = run_events(p1, es.skip(1));
        (p2, count + if emitted { 1nat } else { 0nat })
    }
}

/// Exactly one result per job: however the orchestrator drives a job, the
/// run emits one result frame when the job reaches a terminal state and
/// none before; once terminal, no further event emits another.
pub proof fn lemma_one_result_per_job(p: JobPhase, es: Seq<JobEvent>)
    ensures
        run_events(p, es).1 <= 1,
        is_terminal(p) ==> run_events(p, es).1 == 0 && run_events(p, es).0 == p,
        !is_terminal(p) ==> (run_events(p, es).1 == 1 <==> is_terminal(run_events(p, es).0)),
    decreases es.len(),
{
    if es.len() > 0 {
        let (p1, emitted) = phase_step(p, es[0]);
        lemma_one_result_per_job(p1, es.skip(1));
    }
}

// ---------------------------------------------------------------------------
// Reading payload fields (executable)
// ---------------------------------------------------------------------------

fn payload_type_of(p: &Json) -> (t: String)
    ensures
        t@ == payload_type(p@),
{
    match crate::protocol::obj_get(p, "type") {
        Option::Some(x) => match x {
            Json::Str(s) => s.clone(),
            _ => String::from_str("docker"),
        },
        Option::None => String::from_str("docker"),
    }
}

#[verifier::loop_isolation(false)]
fn collect_str_elems(a: &Vec<Json>) -> (out: Vec<String>)
    ensures
        strs_view(out@) == str_elems(crate::json::jv_seq(a@)),
{
    let ghost xs = crate::json::jv_seq(a@);
    proof {
        crate::json::lemma_jv_seq(a@);
    }
    let mut out: Vec<String> = Vec::new();
    let n = a.len();
    let mut i: usize = 0;
    proof {
        assert(xs.skip(0) =~= xs);
        assert(strs_view(out@) + str_elems(xs) =~= str_elems(xs));
    }
    while i < n
        invariant
            0 <= i <= n,
            strs_view(out@) + str_elems(xs.skip(i as int)) == str_elems(xs),
        decreases n - i,
    {
        proof {
            assert(xs.skip(i as int)[0] == xs[i as int]);
            assert(xs[i as int] == a@[i as int].jv());
            assert(xs.skip(i as int).skip(1) =~= xs.skip(i + 1));
        }
        match &a[i] {
            Json::Str(s) => {
                let ghost out0 = out@;
                out.push(s.clone());
                proof {
                    assert(strs_view(out@) =~= strs_view(out0).push(s@));
                    assert(strs_view(out0) + (seq![s@] + str_elems(xs.skip(i + 1)))
                        =~= strs_view(out@) + str_elems(xs.skip(i + 1)));
                }
            },
            _ => {},
        }
        i = i + 1;
    }
    proof {
        assert(xs.skip(n as int).len() == 0);
        assert(strs_view(out@) + str_elems(xs.skip(n as int)) =~= strs_view(out@));
    }
    out
}

#[verifier::loop_isolation(false)]
fn collect_env_elems(fs: &Vec<(String, Json)>) -> (out: Vec<String>)
    ensures
        strs_view(out@) == env_elems(crate::json::jv_members(fs@)),
{
    let ghost ms = crate::json::jv_members(fs@);
    proof {
        crate::json::lemma_jv_members(fs@);
    }
    let mut out: Vec<String> = Vec::new();
    let n = fs.len();
    let mut i: usize = 0;
    proof {
        assert(ms.skip(0) =~= ms);
        assert(strs_view(out@) + env_elems(ms) =~= env_elems(ms));
    }
    while i < n
        invariant
            0 <= i <= n,
            strs_view(out@) + env_elems(ms.skip(i as int)) == env_elems(ms),
        decreases n - i,
    {
        proof {
            assert(ms.skip(i as int)[0] == ms[i as int]);
            assert(ms[i as int] == (fs@[i as int].0@, fs@[i as int].1.jv()));
            assert(ms.skip(i as int).skip(1) =~= ms.skip(i + 1));
        }
        match &fs[i].1 {
            Json::Str(v) => {
                let mut entry = fs[i].0.clone();
                push_char(&mut entry, '=');
                entry.append(v.as_str());
                proof {
                    assert(entry@ == fs@[i as int].0@ + seq!['='] + v@) by {
                        assert(fs@[i as int].0@.push('=') =~= fs@[i as int].0@ + seq!['=']);
                    }
                }
                let ghost out0 = out@;
                out.push(entry);
                proof {
                    assert(strs_view(out@) =~= strs_view(out0).push(out@[out@.len() - 1]@));
                    assert(strs_view(out0) + (seq![out@[out@.len() - 1]@] + env_elems(ms.skip(i + 1)))
                        =~= strs_view(out@) + env_elems(ms.skip(i + 1)));
                }
            },
            _ => {},
        }
        i = i + 1;
    }
    proof {
        assert(ms.skip(n as int).len() == 0);
        assert(strs_view(out@) + env_elems(ms.skip(n as int)) =~= strs_view(out@));
    }
    out
}

fn command_of(p: &Json) -> (r: Option<Vec<String>>)
    ensures
        opt_strs_view(r) == docker_command(p@),
{
    match crate::protocol::obj_get(p, "command") {
        Option::Some(x) => match x {
            Json::Arr(xs) => Some(collect_str_elems(xs)),
            _ => None,
        },
        Option::None => None,
    }
}

fn env_of(p: &Json) -> (r: Option<Vec<String>>)
    ensures
        opt_strs_view(r) == docker_env(p@),
{
    match crate::protocol::obj_get(p, "env") {
        Option::Some(x) => match x {
            Json::Obj(fs) => Some(collect_env_elems(fs)),
            _ => None,
        },
        Option::None => None,
    }
}

/// A failed result carrying the given error text.
fn make_fail(msg: &str, elapsed_ms: u64) -> (r: JobResultData)
    ensures
        r@ == fail_result(msg@, elapsed_ms),
{
    JobResultData {
        success: false,
        outputs: None,
        error: Some(msg.to_owned()),
        execution_time_ms: elapsed_ms,
        actual_cost_cents: 0,
    }
}

/// Appends a signed number to error text.
fn push_int(out: &mut String, n: i64)
    ensures
        final(out)@ == old(out)@ + int_text(n as int),
{
    if n >= 0 {
        print_digits(n as u64, out);
    } else {
        push_char(out, '-');
        let mag: u64 = if n == i64::MIN {
            0x8000_0000_0000_0000
        } else {
            (-n) as u64
        };
        proof {
            assert(mag as nat == (-(n as int)) as nat);
        }
        print_digits(mag, out);
        proof {
            assert(old(out)@.push('-') + spec_digits(mag as nat)
                =~= old(out)@ + (seq!['-'] + spec_digits((-(n as int)) as nat)));
        }
    }
}

} // verus!