//! The control-channel messages and their wire encoding.
//!
//! Outbound frames (node to orchestrator) are encoded by `encode_node_message`;
//! inbound frames are decoded by `decode_orchestrator_frame`. Both directions
//! are specified against the mathematical model of the JSON layer.

use vstd::prelude::*;
use crate::json::{Json, JVal, jv_members, jv_seq, lemma_jv_members, lemma_jv_seq,
    lemma_jv_members_push, lemma_jv_seq_push, spec_print, sp_top, print_json, parse_json};
use crate::hardware::{NodeCapabilities, GpuCapability, GpuSupports, CpuArchitecture,
    StorageType, CapsV, GpuV, opt_view};
use crate::text::str_eq;

verus! {

// ---------------------------------------------------------------------------
// Message types
// ---------------------------------------------------------------------------

/// The progress reports a node sends for one job.
#[derive(Debug)]
pub enum JobStatusUpdate {
    Accepted,
    Preparing,
    Running,
    Completed,
    Failed { error: String },
}

/// One unit of work handed down by the orchestrator.
#[derive(Debug)]
pub struct JobData {
    pub id: String,
    pub client_id: String,
    pub payload: Json,
    pub timeout_seconds: u64,
    pub max_cost_cents: u32,
}

/// What the executor returns for one job.
#[derive(Debug)]
pub struct JobResultData {
    pub success: bool,
    pub outputs: Option<Vec<Json>>,
    pub error: Option<String>,
    pub execution_time_ms: u64,
    pub actual_cost_cents: u32,
}

/// Frames the node sends.
#[derive(Debug)]
pub enum NodeMessage {
    Register { capabilities: NodeCapabilities, auth_token: Option<String> },
    Heartbeat { available: bool, current_jobs: u32 },
    JobStatus { job_id: String, status: JobStatusUpdate },
    JobResult { job_id: String, result: JobResultData },
}

/// Frames the orchestrator sends.
#[derive(Debug)]
pub enum OrchestratorMessage {
    Registered { node_id: String },
    JobAssignment { job: JobData },
    CancelJob { job_id: String },
    ConfigUpdate { config: Json },
    Error { code: String, message: String },
}

/// What the registration endpoint returns.
#[derive(Debug)]
pub struct RegistrationResult {
    pub node_id: String,
    pub auth_token: String,
}

// ---------------------------------------------------------------------------
// Models
// ---------------------------------------------------------------------------

pub enum StatusV {
    Accepted,
    Preparing,
    Running,
    Completed,
    Failed { error: Seq<char> },
}

pub struct JobV {
    pub id: Seq<char>,
    pub client_id: Seq<char>,
    pub payload: JVal,
    pub timeout_seconds: u64,
    pub max_cost_cents: u32,
}

pub struct ResultV {
    pub success: bool,
    pub outputs: Option<Seq<JVal>>,
    pub error: Option<Seq<char>>,
    pub execution_time_ms: u64,
    pub actual_cost_cents: u32,
}

pub enum OMsgV {
    Registered { node_id: Seq<char> },
    JobAssignment { job: JobV },
    CancelJob { job_id: Seq<char> },
    ConfigUpdate { config: JVal },
    Error { code: Seq<char>, message: Seq<char> },
}

impl View for JobStatusUpdate {
    type V = StatusV;

    open spec fn view(&self) -> StatusV {
        match self {
            JobStatusUpdate::Accepted => StatusV::Accepted,
            JobStatusUpdate::Preparing => StatusV::Preparing,
            JobStatusUpdate::Running => StatusV::Running,
            JobStatusUpdate::Completed => StatusV::Completed,
            JobStatusUpdate::Failed { error } => StatusV::Failed { error: error@ },
        }
    }
}

impl View for JobData {
    type V = JobV;

    open spec fn view(&self) -> JobV {
        JobV {
            id: self.id@,
            client_id: self.client_id@,
            payload: self.payload@,
            timeout_seconds: self.timeout_seconds,
            max_cost_cents: self.max_cost_cents,
        }
    }
}

impl View for JobResultData {
    type V = ResultV;

    open spec fn view(&self) -> ResultV {
        ResultV {
            success: self.success,
            outputs: match self.outputs {
                Option::Some(v) => Some(jv_seq(v@)),
                Option::None => None,
            },
            error: opt_view(self.error),
            execution_time_ms: self.execution_time_ms,
            actual_cost_cents: self.actual_cost_cents,
        }
    }
}

impl View for OrchestratorMessage {
    type V = OMsgV;

    open spec fn view(&self) -> OMsgV {
        match self {
            OrchestratorMessage::Registered { node_id } =>
                OMsgV::Registered { node_id: node_id@ },
            OrchestratorMessage::JobAssignment { job } =>
                OMsgV::JobAssignment { job: job@ },
            OrchestratorMessage::CancelJob { job_id } =>
                OMsgV::CancelJob { job_id: job_id@ },
            OrchestratorMessage::ConfigUpdate { config } =>
                OMsgV::ConfigUpdate { config: config@ },
            OrchestratorMessage::Error { code, message } =>
                OMsgV::Error { code: code@, message: message@ },
        }
    }
}

// ---------------------------------------------------------------------------
// Object field lookup
// ---------------------------------------------------------------------------

/// The first member with the given key, if any.
pub open spec fn jv_lookup(fs: Seq<(Seq<char>, JVal)>, key: Seq<char>) -> Option<JVal>
    decreases fs.len(),
{
    if fs.len() == 0 {
        None
    } else if fs[0].0 == key {
        Some(fs[0].1)
    } else {
        jv_lookup(fs.skip(1), key)
    }
}

/// Field access on an object value.
pub open spec fn jv_get(j: JVal, key: Seq<char>) -> Option<JVal> {
    match j {
        JVal::Obj(fs) => jv_lookup(fs, key),
        _ => None,
    }
}

proof fn lemma_jv_lookup_from(fs: Seq<(Seq<char>, JVal)>, key: Seq<char>, i: int)
    requires
        0 <= i <= fs.len(),
        forall|m: int| 0 <= m < i ==> (#[trigger] fs[m]).0 != key,
    ensures
        jv_lookup(fs, key) == jv_lookup(fs.skip(i), key),
    decreases i,
{
    if i == 0 {
        assert(fs.skip(0) =~= fs);
    } else {
        assert(fs[0].0 != key);
        assert(fs.skip(1).skip(i - 1) =~= fs.skip(i));
        assert(forall|m: int| 0 <= m < i - 1 ==> (#[trigger] fs.skip(1)[m]).0 != key) by {
            assert(forall|m: int| 0 <= m < i - 1 ==> fs.skip(1)[m] == #[trigger] fs[m + 1]);
        }
        lemma_jv_lookup_from(fs.skip(1), key, i - 1);
    }
}

/// Looks a key up in an object value.
#[verifier::loop_isolation(false)]
pub fn obj_get<'a>(j: &'a Json, key: &str) -> (res: Option<&'a Json>)
    ensures
        (match res {
            Option::Some(x) => jv_get(j@, key@) == Some(x@),
            Option::None => jv_get(j@, key@) is None,
        }),
{
    match j {
        Json::Obj(fs) => {
            proof {
                lemma_jv_members(fs@);
            }
            let n = fs.len();
            let mut i: usize = 0;
            while i < n
                invariant
                    0 <= i <= n,
                    forall|m: int| 0 <= m < i ==> (#[trigger] jv_members(fs@)[m]).0 != key@,
                decreases n - i,
            {
                if str_eq(fs[i].0.as_str(), key) {
                    proof {
                        lemma_jv_lookup_from(jv_members(fs@), key@, i as int);
                        assert(jv_members(fs@).skip(i as int)[0] == jv_members(fs@)[i as int]);
                    }
                    return Some(&fs[i].1);
                }
                i = i + 1;
            }
            proof {
                lemma_jv_lookup_from(jv_members(fs@), key@, n as int);
                assert(jv_members(fs@).skip(n as int).len() == 0);
            }
            None
        },
        _ => None,
    }
}

// ---------------------------------------------------------------------------
// Encoding (specification)
// ---------------------------------------------------------------------------

pub open spec fn enc_opt_str(o: Option<Seq<char>>) -> JVal {
    match o {
        Option::Some(s) => JVal::Str(s),
        Option::None => JVal::Null,
    }
}

pub open spec fn enc_strs(xs: Seq<Seq<char>>) -> Seq<JVal> {
    xs.map_values(|s: Seq<char>| JVal::Str(s))
}

pub open spec fn arch_name(a: CpuArchitecture) -> Seq<char> {
    match a {
        CpuArchitecture::X86_64 => "X86_64"@,
        CpuArchitecture::Aarch64 => "Aarch64"@,
        CpuArchitecture::Arm => "Arm"@,
        CpuArchitecture::Unknown => "Unknown"@,
    }
}

pub open spec fn storage_name(t: StorageType) -> Seq<char> {
    match t {
        StorageType::Ssd => "Ssd"@,
        StorageType::Hdd => "Hdd"@,
        StorageType::Nvme => "Nvme"@,
        StorageType::Unknown => "Unknown"@,
    }
}

pub open spec fn enc_supports(s: GpuSupports) -> JVal {
    JVal::Obj(seq![
        ("cuda"@, JVal::Bool(s.cuda)),
        ("rocm"@, JVal::Bool(s.rocm)),
        ("vulkan"@, JVal::Bool(s.vulkan)),
        ("metal"@, JVal::Bool(s.metal)),
        ("opencl"@, JVal::Bool(s.opencl)),
    ])
}

pub open spec fn enc_gpu(g: GpuV) -> JVal {
    JVal::Obj(seq![
        ("vendor"@, JVal::Str(g.vendor)),
        ("model"@, JVal::Str(g.model)),
        ("vram_mb"@, JVal::UInt(g.vram_mb)),
        ("compute_capability"@, enc_opt_str(g.compute_capability)),
        ("driver_version"@, JVal::Str(g.driver_version)),
        ("supports"@, enc_supports(g.supports)),
    ])
}

pub open spec fn enc_cpu(c: crate::hardware::CpuV) -> JVal {
    JVal::Obj(seq![
        ("vendor"@, JVal::Str(c.vendor)),
        ("model"@, JVal::Str(c.model)),
        ("cores"@, JVal::UInt(c.cores as u64)),
        ("threads"@, JVal::UInt(c.threads as u64)),
        ("frequency_mhz"@, JVal::UInt(c.frequency_mhz)),
        ("architecture"@, JVal::Str(arch_name(c.architecture))),
        ("features"@, JVal::Arr(enc_strs(c.features))),
    ])
}

pub open spec fn enc_memory(m: crate::hardware::MemoryCapability) -> JVal {
    JVal::Obj(seq![
        ("total_mb"@, JVal::UInt(m.total_mb)),
        ("available_mb"@, JVal::UInt(m.available_mb)),
    ])
}

pub open spec fn enc_storage(s: crate::hardware::StorageCapability) -> JVal {
    JVal::Obj(seq![
        ("total_gb"@, JVal::UInt(s.total_gb)),
        ("available_gb"@, JVal::UInt(s.available_gb)),
        ("storage_type"@, JVal::Str(storage_name(s.storage_type))),
    ])
}

pub open spec fn enc_caps(c: CapsV) -> JVal {
    JVal::Obj(seq![
        ("node_id"@, JVal::Str(c.node_id)),
        ("node_version"@, JVal::Str(c.node_version)),
        ("gpus"@, JVal::Arr(c.gpus.map_values(|g: GpuV| enc_gpu(g)))),
        ("cpu"@, enc_cpu(c.cpu)),
        ("memory"@, enc_memory(c.memory)),
        ("storage"@, enc_storage(c.storage)),
        ("docker_version"@, enc_opt_str(c.docker_version)),
        ("container_runtimes"@, JVal::Arr(enc_strs(c.container_runtimes))),
        ("mcp_adapters"@, JVal::Arr(enc_strs(c.mcp_adapters))),
    ])
}

pub open spec fn enc_status(st: StatusV) -> JVal {
    match st {
        StatusV::Accepted => JVal::Str("accepted"@),
        StatusV::Preparing => JVal::Str("preparing"@),
        StatusV::Running => JVal::Str("running"@),
        StatusV::Completed => JVal::Str("completed"@),
        StatusV::Failed { error } => JVal::Obj(seq![
            ("failed"@, JVal::Obj(seq![("error"@, JVal::Str(error))])),
        ]),
    }
}

pub open spec fn enc_result(r: ResultV) -> JVal {
    JVal::Obj(seq![
        ("success"@, JVal::Bool(r.success)),
        ("outputs"@, match r.outputs {
            Option::Some(os) => JVal::Arr(os),
            Option::None => JVal::Null,
        }),
        ("error"@, enc_opt_str(r.error)),
        ("execution_time_ms"@, JVal::UInt(r.execution_time_ms)),
        ("actual_cost_cents"@, JVal::UInt(r.actual_cost_cents as u64)),
    ])
}

/// The registration frame value: the snapshot and the stored token.
pub open spec fn enc_register(c: CapsV, auth: Option<Seq<char>>) -> JVal {
    JVal::Obj(seq![
        ("type"@, JVal::Str("register"@)),
        ("capabilities"@, enc_caps(c)),
        ("auth_token"@, enc_opt_str(auth)),
    ])
}

/// The heartbeat frame value.
pub open spec fn enc_heartbeat(available: bool, current_jobs: u32) -> JVal {
    JVal::Obj(seq![
        ("type"@, JVal::Str("heartbeat"@)),
        ("available"@, JVal::Bool(available)),
        ("current_jobs"@, JVal::UInt(current_jobs as u64)),
    ])
}

/// The status-update frame value for one job.
pub open spec fn enc_job_status(job_id: Seq<char>, st: StatusV) -> JVal {
    JVal::Obj(seq![
        ("type"@, JVal::Str("job_status"@)),
        ("job_id"@, JVal::Str(job_id)),
        ("status"@, enc_status(st)),
    ])
}

/// The result frame value for one job.
pub open spec fn enc_job_result(job_id: Seq<char>, r: ResultV) -> JVal {
    JVal::Obj(seq![
        ("type"@, JVal::Str("job_result"@)),
        ("job_id"@, JVal::Str(job_id)),
        ("result"@, enc_result(r)),
    ])
}

/// The frame for each outbound message, discriminated by its `type` member.
pub open spec fn enc_node_message(m: NodeMessage) -> JVal {
    match m {
        NodeMessage::Register { capabilities, auth_token } =>
            enc_register(capabilities@, opt_view(auth_token)),
        NodeMessage::Heartbeat { available, current_jobs } =>
            enc_heartbeat(available, current_jobs),
        NodeMessage::JobStatus { job_id, status } => enc_job_status(job_id@, status@),
        NodeMessage::JobResult { job_id, result } => enc_job_result(job_id@, result@),
    }
}

// ---------------------------------------------------------------------------
// Encoding (executable)
// ---------------------------------------------------------------------------

/// Appends one member to an object under construction.
pub(crate) fn obj_field(fs: &mut Vec<(String, Json)>, key: &str, val: Json)
    ensures
        jv_members(final(fs)@) == jv_members(old(fs)@).push((key@, val@)),
{
    let ghost fs0 = fs@;
    let ghost valg = val;
    fs.push((key.to_owned(), val));
    proof {
        lemma_jv_members_push(fs0, fs@[fs@.len() - 1].0, fs@[fs@.len() - 1].1);
        assert(fs@[fs@.len() - 1].0@ == key@);
        assert(fs@[fs@.len() - 1].1 == valg);
    }
}

pub(crate) fn opt_str_to_json(o: &Option<String>) -> (j: Json)
    ensures
        j@ == enc_opt_str(opt_view(*o)),
{
    match o {
        Option::Some(s) => Json::Str(s.clone()),
        Option::None => Json::Null,
    }
}

#[verifier::loop_isolation(false)]
fn strs_to_json(v: &Vec<String>) -> (j: Json)
    ensures
        j@ == JVal::Arr(enc_strs(crate::hardware::strs_view(v@))),
{
    let mut out: Vec<Json> = Vec::new();
    let n = v.len();
    let mut i: usize = 0;
    proof {
        assert(jv_seq(out@) =~= Seq::<JVal>::empty());
    }
    while i < n
        invariant
            0 <= i <= n,
            jv_seq(out@) == enc_strs(crate::hardware::strs_view(v@.take(i as int))),
        decreases n - i,
    {
        let ghost out0 = out@;
        out.push(Json::Str(v[i].clone()));
        proof {
            lemma_jv_seq_push(out0, out@[out@.len() - 1]);
            assert(jv_seq(out@) =~= enc_strs(crate::hardware::strs_view(v@.take(i + 1))));
        }
        i = i + 1;
    }
    proof {
        assert(v@.take(n as int) =~= v@);
    }
    Json::Arr(out)
}

fn supports_to_json(s: &GpuSupports) -> (j: Json)
    ensures
        j@ == enc_supports(*s),
{
    let mut fs: Vec<(String, Json)> = Vec::new();
    proof {
        assert(jv_members(fs@) =~= Seq::<(Seq<char>, JVal)>::empty());
    }
    obj_field(&mut fs, "cuda", Json::Bool(s.cuda));
    obj_field(&mut fs, "rocm", Json::Bool(s.rocm));
    obj_field(&mut fs, "vulkan", Json::Bool(s.vulkan));
    obj_field(&mut fs, "metal", Json::Bool(s.metal));
    obj_field(&mut fs, "opencl", Json::Bool(s.opencl));
    proof {
        assert(jv_members(fs@) =~= enc_supports(*s)->Obj_0);
    }
    Json::Obj(fs)
}

fn arch_to_json(a: &CpuArchitecture) -> (j: Json)
    ensures
        j@ == JVal::Str(arch_name(*a)),
{
    match a {
        CpuArchitecture::X86_64 => Json::Str(String::from_str("X86_64")),
        CpuArchitecture::Aarch64 => Json::Str(String::from_str("Aarch64")),
        CpuArchitecture::Arm => Json::Str(String::from_str("Arm")),
        CpuArchitecture::Unknown => Json::Str(String::from_str("Unknown")),
    }
}

fn storage_type_to_json(t: &StorageType) -> (j: Json)
    ensures
        j@ == JVal::Str(storage_name(*t)),
{
    match t {
        StorageType::Ssd => Json::Str(String::from_str("Ssd")),
        StorageType::Hdd => Json::Str(String::from_str("Hdd")),
        StorageType::Nvme => Json::Str(String::from_str("Nvme")),
        StorageType::Unknown => Json::Str(String::from_str("Unknown")),
    }
}

fn gpu_to_json(g: &GpuCapability) -> (j: Json)
    ensures
        j@ == enc_gpu(g@),
{
    let mut fs: Vec<(String, Json)> = Vec::new();
    proof {
        assert(jv_members(fs@) =~= Seq::<(Seq<char>, JVal)>::empty());
    }
    obj_field(&mut fs, "vendor", Json::Str(g.vendor.clone()));
    obj_field(&mut fs, "model", Json::Str(g.model.clone()));
    obj_field(&mut fs, "vram_mb", Json::UInt(g.vram_mb));
    obj_field(&mut fs, "compute_capability", opt_str_to_json(&g.compute_capability));
    obj_field(&mut fs, "driver_version", Json::Str(g.driver_version.clone()));
    obj_field(&mut fs, "supports", supports_to_json(&g.supports));
    proof {
        assert(jv_members(fs@) =~= enc_gpu(g@)->Obj_0);
    }
    Json::Obj(fs)
}

fn cpu_to_json(c: &crate::hardware::CpuCapability) -> (j: Json)
    ensures
        j@ == enc_cpu(c@),
{
    let mut fs: Vec<(String, Json)> = Vec::new();
    proof {
        assert(jv_members(fs@) =~= Seq::<(Seq<char>, JVal)>::empty());
    }
    obj_field(&mut fs, "vendor", Json::Str(c.vendor.clone()));
    obj_field(&mut fs, "model", Json::Str(c.model.clone()));
    obj_field(&mut fs, "cores", Json::UInt(c.cores as u64));
    obj_field(&mut fs, "threads", Json::UInt(c.threads as u64));
    obj_field(&mut fs, "frequency_mhz", Json::UInt(c.frequency_mhz));
    obj_field(&mut fs, "architecture", arch_to_json(&c.architecture));
    obj_field(&mut fs, "features", strs_to_json(&c.features));
    proof {
        assert(jv_members(fs@) =~= enc_cpu(c@)->Obj_0);
    }
    Json::Obj(fs)
}

fn memory_to_json(m: &crate::hardware::MemoryCapability) -> (j: Json)
    ensures
        j@ == enc_memory(*m),
{
    let mut fs: Vec<(String, Json)> = Vec::new();
    proof {
        assert(jv_members(fs@) =~= Seq::<(Seq<char>, JVal)>::empty());
    }
    obj_field(&mut fs, "total_mb", Json::UInt(m.total_mb));
    obj_field(&mut fs, "available_mb", Json::UInt(m.available_mb));
    proof {
        assert(jv_members(fs@) =~= enc_memory(*m)->Obj_0);
    }
    Json::Obj(fs)
}

fn storage_to_json(s: &crate::hardware::StorageCapability) -> (j: Json)
    ensures
        j@ == enc_storage(*s),
{
    let mut fs: Vec<(String, Json)> = Vec::new();
    proof {
        assert(jv_members(fs@) =~= Seq::<(Seq<char>, JVal)>::empty());
    }
    obj_field(&mut fs, "total_gb", Json::UInt(s.total_gb));
    obj_field(&mut fs, "available_gb", Json::UInt(s.available_gb));
    obj_field(&mut fs, "storage_type", storage_type_to_json(&s.storage_type));
    proof {
        assert(jv_members(fs@) =~= enc_storage(*s)->Obj_0);
    }
    Json::Obj(fs)
}

/// The registration snapshot as a JSON value.
#[verifier::loop_isolation(false)]
pub fn caps_to_json(c: &NodeCapabilities) -> (j: Json)
    ensures
        j@ == enc_caps(c@),
{
    let mut gpus: Vec<Json> = Vec::new();
    let n = c.gpus.len();
    let mut i: usize = 0;
    proof {
        assert(jv_seq(gpus@) =~= Seq::<JVal>::empty());
    }
    while i < n
        invariant
            0 <= i <= n,
            jv_seq(gpus@) == c.gpus@.take(i as int).map_values(|g: GpuCapability| g@)
                .map_values(|g: GpuV| enc_gpu(g)),
        decreases n - i,
    {
        let ghost gpus0 = gpus@;
        gpus.push(gpu_to_json(&c.gpus[i]));
        proof {
            lemma_jv_seq_push(gpus0, gpus@[gpus@.len() - 1]);
            assert(jv_seq(gpus@) =~= c.gpus@.take(i + 1).map_values(|g: GpuCapability| g@)
                .map_values(|g: GpuV| enc_gpu(g)));
        }
        i = i + 1;
    }
    proof {
        assert(c.gpus@.take(n as int) =~= c.gpus@);
    }
    let mut fs: Vec<(String, Json)> = Vec::new();
    proof {
        assert(jv_members(fs@) =~= Seq::<(Seq<char>, JVal)>::empty());
    }
    obj_field(&mut fs, "node_id", Json::Str(c.node_id.clone()));
    obj_field(&mut fs, "node_version", Json::Str(c.node_version.clone()));
    obj_field(&mut fs, "gpus", Json::Arr(gpus));
    obj_field(&mut fs, "cpu", cpu_to_json(&c.cpu));
    obj_field(&mut fs, "memory", memory_to_json(&c.memory));
    obj_field(&mut fs, "storage", storage_to_json(&c.storage));
    obj_field(&mut fs, "docker_version", opt_str_to_json(&c.docker_version));
    obj_field(&mut fs, "container_runtimes", strs_to_json(&c.container_runtimes));
    obj_field(&mut fs, "mcp_adapters", strs_to_json(&c.mcp_adapters));
    proof {
        assert(jv_members(fs@) =~= enc_caps(c@)->Obj_0);
    }
    Json::Obj(fs)
}

fn status_to_json(st: &JobStatusUpdate) -> (j: Json)
    ensures
        j@ == enc_status(st@),
{
    match st {
        JobStatusUpdate::Accepted => Json::Str(String::from_str("accepted")),
        JobStatusUpdate::Preparing => Json::Str(String::from_str("preparing")),
        JobStatusUpdate::Running => Json::Str(String::from_str("running")),
        JobStatusUpdate::Completed => Json::Str(String::from_str("completed")),
        JobStatusUpdate::Failed { error } => {
            let mut inner: Vec<(String, Json)> = Vec::new();
            proof {
                assert(jv_members(inner@) =~= Seq::<(Seq<char>, JVal)>::empty());
            }
            obj_field(&mut inner, "error", Json::Str(error.clone()));
            let mut fs: Vec<(String, Json)> = Vec::new();
            proof {
                assert(jv_members(fs@) =~= Seq::<(Seq<char>, JVal)>::empty());
            }
            obj_field(&mut fs, "failed", Json::Obj(inner));
            proof {
                assert(jv_members(fs@) =~= enc_status(st@)->Obj_0);
            }
            Json::Obj(fs)
        },
    }
}

fn result_to_json(r: &JobResultData) -> (j: Json)
    ensures
        j@ == enc_result(r@),
{
    let outputs: Json = match &r.outputs {
        Option::Some(os) => {
            let mut arr: Vec<Json> = Vec::new();
            let n = os.len();
            let mut i: usize = 0;
            proof {
                assert(jv_seq(arr@) =~= Seq::<JVal>::empty());
                assert(jv_seq(os@.take(0)) =~= Seq::<JVal>::empty());
            }
            while i < n
                invariant
                    0 <= i <= n,
                    n == os@.len(),
                    jv_seq(arr@) == jv_seq(os@.take(i as int)),
                decreases n - i,
            {
                let ghost arr0 = arr@;
                arr.push(os[i].duplicate());
                proof {
                    lemma_jv_seq_push(arr0, arr@[arr@.len() - 1]);
                    crate::json::lemma_jv_seq_take_push(os@, i as int, arr@[arr@.len() - 1]);
                }
                i = i + 1;
            }
            proof {
                assert(os@.take(n as int) =~= os@);
            }
            Json::Arr(arr)
        },
        Option::None => Json::Null,
    };
    let mut fs: Vec<(String, Json)> = Vec::new();
    proof {
        assert(jv_members(fs@) =~= Seq::<(Seq<char>, JVal)>::empty());
    }
    obj_field(&mut fs, "success", Json::Bool(r.success));
    obj_field(&mut fs, "outputs", outputs);
    obj_field(&mut fs, "error", opt_str_to_json(&r.error));
    obj_field(&mut fs, "execution_time_ms", Json::UInt(r.execution_time_ms));
    obj_field(&mut fs, "actual_cost_cents", Json::UInt(r.actual_cost_cents as u64));
    proof {
        assert(jv_members(fs@) =~= enc_result(r@)->Obj_0);
    }
    Json::Obj(fs)
}

/// One outbound message as a JSON value.
pub fn node_message_to_json(m: &NodeMessage) -> (j: Json)
    ensures
        j@ == enc_node_message(*m),
{
    let mut fs: Vec<(String, Json)> = Vec::new();
    proof {
        assert(jv_members(fs@) =~= Seq::<(Seq<char>, JVal)>::empty());
    }
    match m {
        NodeMessage::Register { capabilities, auth_token } => {
            obj_field(&mut fs, "type", Json::Str(String::from_str("register")));
            obj_field(&mut fs, "capabilities", caps_to_json(capabilities));
            obj_field(&mut fs, "auth_token", opt_str_to_json(auth_token));
        },
        NodeMessage::Heartbeat { available, current_jobs } => {
            obj_field(&mut fs, "type", Json::Str(String::from_str("heartbeat")));
            obj_field(&mut fs, "available", Json::Bool(*available));
            obj_field(&mut fs, "current_jobs", Json::UInt(*current_jobs as u64));
        },
        NodeMessage::JobStatus { job_id, status } => {
            obj_field(&mut fs, "type", Json::Str(String::from_str("job_status")));
            obj_field(&mut fs, "job_id", Json::Str(job_id.clone()));
            obj_field(&mut fs, "status", status_to_json(status));
        },
        NodeMessage::JobResult { job_id, result } => {
            obj_field(&mut fs, "type", Json::Str(String::from_str("job_result")));
            obj_field(&mut fs, "job_id", Json::Str(job_id.clone()));
            obj_field(&mut fs, "result", result_to_json(result));
        },
    }
    proof {
        assert(jv_members(fs@) =~= enc_node_message(*m)->Obj_0);
    }
    Json::Obj(fs)
}

/// One outbound message as frame text.
pub fn encode_node_message(m: &NodeMessage) -> (s: String)
    ensures
        s@ == spec_print(enc_node_message(*m)),
{
    let j = node_message_to_json(m);
    print_json(&j)
}

/// The status-update frame for one job, as text.
pub fn job_status_frame(job_id: &str, status: JobStatusUpdate) -> (r: String)
    ensures
        r@ == spec_print(enc_job_status(job_id@, status@)),
{
    let m = NodeMessage::JobStatus { job_id: job_id.to_owned(), status };
    encode_node_message(&m)
}

/// The result frame for one job, as text.
pub fn job_result_frame(job_id: &str, result: JobResultData) -> (r: String)
    ensures
        r@ == spec_print(enc_job_result(job_id@, result@)),
{
    let m = NodeMessage::JobResult { job_id: job_id.to_owned(), result };
    encode_node_message(&m)
}

// ---------------------------------------------------------------------------
// Decoding (specification)
// ---------------------------------------------------------------------------

pub open spec fn get_str(j: JVal, k: Seq<char>) -> Option<Seq<char>> {
    match jv_get(j, k) {
        Option::Some(JVal::Str(s)) => Some(s),
        _ => None,
    }
}

pub open spec fn get_bool(j: JVal, k: Seq<char>) -> Option<bool> {
    match jv_get(j, k) {
        Option::Some(JVal::Bool(b)) => Some(b),
        _ => None,
    }
}

pub open spec fn get_u64(j: JVal, k: Seq<char>) -> Option<u64> {
    match jv_get(j, k) {
        Option::Some(JVal::UInt(n)) => Some(n),
        _ => None,
    }
}

pub open spec fn get_u32(j: JVal, k: Seq<char>) -> Option<u32> {
    match jv_get(j, k) {
        Option::Some(JVal::UInt(n)) => if n <= u32::MAX { Some(n as u32) } else { None },
        _ => None,
    }
}

/// An optional string member: absent and null both mean none.
pub open spec fn get_opt_str(j: JVal, k: Seq<char>) -> Option<Option<Seq<char>>> {
    match jv_get(j, k) {
        Option::None => Some(None),
        Option::Some(JVal::Null) => Some(None),
        Option::Some(JVal::Str(s)) => Some(Some(s)),
        _ => None,
    }
}

pub open spec fn dec_strs(xs: Seq<JVal>) -> Option<Seq<Seq<char>>>
    decreases xs.len(),
{
    if xs.len() == 0 {
        Some(Seq::<Seq<char>>::empty())
    } else {
        match xs[0] {
            JVal::Str(s) => match dec_strs(xs.skip(1)) {
                Option::Some(t) => Some(seq![s] + t),
                Option::None => None,
            },
            _ => None,
        }
    }
}

pub open spec fn arch_of_name(s: Seq<char>) -> Option<CpuArchitecture> {
    if s == "X86_64"@ { Some(CpuArchitecture::X86_64) }
    else if s == "Aarch64"@ { Some(CpuArchitecture::Aarch64) }
    else if s == "Arm"@ { Some(CpuArchitecture::Arm) }
    else if s == "Unknown"@ { Some(CpuArchitecture::Unknown) }
    else { None }
}

pub open spec fn storage_of_name(s: Seq<char>) -> Option<StorageType> {
    if s == "Ssd"@ { Some(StorageType::Ssd) }
    else if s == "Hdd"@ { Some(StorageType::Hdd) }
    else if s == "Nvme"@ { Some(StorageType::Nvme) }
    else if s == "Unknown"@ { Some(StorageType::Unknown) }
    else { None }
}

pub open spec fn dec_supports(j: JVal) -> Option<GpuSupports> {
    match (get_bool(j, "cuda"@), get_bool(j, "rocm"@), get_bool(j, "vulkan"@),
        get_bool(j, "metal"@), get_bool(j, "opencl"@)) {
        (Option::Some(cuda), Option::Some(rocm), Option::Some(vulkan),
            Option::Some(metal), Option::Some(opencl)) =>
            Some(GpuSupports { cuda, rocm, vulkan, metal, opencl }),
        _ => None,
    }
}

pub open spec fn dec_gpu(j: JVal) -> Option<GpuV> {
    match (get_str(j, "vendor"@), get_str(j, "model"@), get_u64(j, "vram_mb"@),
        get_opt_str(j, "compute_capability"@), get_str(j, "driver_version"@)) {
        (Option::Some(vendor), Option::Some(model), Option::Some(vram_mb),
            Option::Some(compute_capability), Option::Some(driver_version)) => {
            match jv_get(j, "supports"@) {
                Option::Some(sj) => match dec_supports(sj) {
                    Option::Some(supports) => Some(GpuV {
                        vendor, model, vram_mb, compute_capability, driver_version, supports,
                    }),
                    Option::None => None,
                },
                Option::None => None,
            }
        },
        _ => None,
    }
}

pub open spec fn dec_gpus(xs: Seq<JVal>) -> Option<Seq<GpuV>>
    decreases xs.len(),
{
    if xs.len() == 0 {
        Some(Seq::<GpuV>::empty())
    } else {
        match dec_gpu(xs[0]) {
            Option::Some(g) => match dec_gpus(xs.skip(1)) {
                Option::Some(t) => Some(seq![g] + t),
                Option::None => None,
            },
            Option::None => None,
        }
    }
}

pub open spec fn dec_cpu(j: JVal) -> Option<crate::hardware::CpuV> {
    match (get_str(j, "vendor"@), get_str(j, "model"@), get_u32(j, "cores"@),
        get_u32(j, "threads"@), get_u64(j, "frequency_mhz"@)) {
        (Option::Some(vendor), Option::Some(model), Option::Some(cores),
            Option::Some(threads), Option::Some(frequency_mhz)) => {
            match (get_str(j, "architecture"@), jv_get(j, "features"@)) {
                (Option::Some(an), Option::Some(JVal::Arr(fx))) => {
                    match (arch_of_name(an), dec_strs(fx)) {
                        (Option::Some(architecture), Option::Some(features)) =>
                            Some(crate::hardware::CpuV {
                                vendor, model, cores, threads, frequency_mhz,
                                architecture, features,
                            }),
                        _ => None,
                    }
                },
                _ => None,
            }
        },
        _ => None,
    }
}

pub open spec fn dec_memory(j: JVal) -> Option<crate::hardware::MemoryCapability> {
    match (get_u64(j, "total_mb"@), get_u64(j, "available_mb"@)) {
        (Option::Some(total_mb), Option::Some(available_mb)) =>
            Some(crate::hardware::MemoryCapability { total_mb, available_mb }),
        _ => None,
    }
}

pub open spec fn dec_storage(j: JVal) -> Option<crate::hardware::StorageCapability> {
    match (get_u64(j, "total_gb"@), get_u64(j, "available_gb"@), get_str(j, "storage_type"@)) {
        (Option::Some(total_gb), Option::Some(available_gb), Option::Some(tn)) =>
            match storage_of_name(tn) {
                Option::Some(storage_type) => Some(crate::hardware::StorageCapability {
                    total_gb, available_gb, storage_type,
                }),
                Option::None => None,
            },
        _ => None,
    }
}

pub open spec fn dec_caps(j: JVal) -> Option<CapsV> {
    match (get_str(j, "node_id"@), get_str(j, "node_version"@), jv_get(j, "gpus"@),
        jv_get(j, "cpu"@), jv_get(j, "memory"@), jv_get(j, "storage"@)) {
        (Option::Some(node_id), Option::Some(node_version), Option::Some(JVal::Arr(gx)),
            Option::Some(cj), Option::Some(mj), Option::Some(sj)) => {
            match (dec_gpus(gx), dec_cpu(cj), dec_memory(mj), dec_storage(sj),
                get_opt_str(j, "docker_version"@), jv_get(j, "container_runtimes"@),
                jv_get(j, "mcp_adapters"@)) {
                (Option::Some(gpus), Option::Some(cpu), Option::Some(memory),
                    Option::Some(storage), Option::Some(docker_version),
                    Option::Some(JVal::Arr(rx)), Option::Some(JVal::Arr(ax))) => {
                    match (dec_strs(rx), dec_strs(ax)) {
                        (Option::Some(container_runtimes), Option::Some(mcp_adapters)) =>
                            Some(CapsV {
                                node_id, node_version, gpus, cpu, memory, storage,
                                docker_version, container_runtimes, mcp_adapters,
                            }),
                        _ => None,
                    }
                },
                _ => None,
            }
        },
        _ => None,
    }
}

pub open spec fn dec_job(j: JVal) -> Option<JobV> {
    match (get_str(j, "id"@), get_str(j, "client_id"@), jv_get(j, "payload"@),
        get_u64(j, "timeout_seconds"@), get_u32(j, "max_cost_cents"@)) {
        (Option::Some(id), Option::Some(client_id), Option::Some(payload),
            Option::Some(timeout_seconds), Option::Some(max_cost_cents)) =>
            Some(JobV { id, client_id, payload, timeout_seconds, max_cost_cents }),
        _ => None,
    }
}

/// The meaning of one inbound frame value.
pub open spec fn dec_omsg(j: JVal) -> Option<OMsgV> {
    match get_str(j, "type"@) {
        Option::Some(t) => {
            if t == "registered"@ {
                match get_str(j, "node_id"@) {
                    Option::Some(node_id) => Some(OMsgV::Registered { node_id }),
                    Option::None => None,
                }
            } else if t == "job_assignment"@ {
                match jv_get(j, "job"@) {
                    Option::Some(jj) => match dec_job(jj) {
                        Option::Some(job) => Some(OMsgV::JobAssignment { job }),
                        Option::None => None,
                    },
                    Option::None => None,
                }
            } else if t == "cancel_job"@ {
                match get_str(j, "job_id"@) {
                    Option::Some(job_id) => Some(OMsgV::CancelJob { job_id }),
                    Option::None => None,
                }
            } else if t == "config_update"@ {
                match jv_get(j, "config"@) {
                    Option::Some(config) => Some(OMsgV::ConfigUpdate { config }),
                    Option::None => None,
                }
            } else if t == "error"@ {
                match (get_str(j, "code"@), get_str(j, "message"@)) {
                    (Option::Some(code), Option::Some(message)) =>
                        Some(OMsgV::Error { code, message }),
                    _ => None,
                }
            } else {
                None
            }
        },
        Option::None => None,
    }
}

/// The meaning of one inbound frame text: parse, then read the message.
pub open spec fn spec_dec_frame(t: Seq<char>) -> Option<OMsgV> {
    match sp_top(t) {
        Option::Some(j) => dec_omsg(j),
        Option::None => None,
    }
}

// ---------------------------------------------------------------------------
// The snapshot encoding round-trips
// ---------------------------------------------------------------------------

/// The character content of every key and name the codec uses;
/// grounds disequalities between keys during lookup proofs.
proof fn lemma_key_chars()
    ensures
        "cuda"@ =~= seq!['c', 'u', 'd', 'a'],
        "rocm"@ =~= seq!['r', 'o', 'c', 'm'],
        "vulkan"@ =~= seq!['v', 'u', 'l', 'k', 'a', 'n'],
        "metal"@ =~= seq!['m', 'e', 't', 'a', 'l'],
        "opencl"@ =~= seq!['o', 'p', 'e', 'n', 'c', 'l'],
        "vendor"@ =~= seq!['v', 'e', 'n', 'd', 'o', 'r'],
        "model"@ =~= seq!['m', 'o', 'd', 'e', 'l'],
        "vram_mb"@ =~= seq!['v', 'r', 'a', 'm', '_', 'm', 'b'],
        "compute_capability"@ =~= seq!['c', 'o', 'm', 'p', 'u', 't', 'e', '_', 'c', 'a', 'p', 'a', 'b', 'i', 'l', 'i', 't', 'y'],
        "driver_version"@ =~= seq!['d', 'r', 'i', 'v', 'e', 'r', '_', 'v', 'e', 'r', 's', 'i', 'o', 'n'],
        "supports"@ =~= seq!['s', 'u', 'p', 'p', 'o', 'r', 't', 's'],
        "cores"@ =~= seq!['c', 'o', 'r', 'e', 's'],
        "threads"@ =~= seq!['t', 'h', 'r', 'e', 'a', 'd', 's'],
        "frequency_mhz"@ =~= seq!['f', 'r', 'e', 'q', 'u', 'e', 'n', 'c', 'y', '_', 'm', 'h', 'z'],
        "architecture"@ =~= seq!['a', 'r', 'c', 'h', 'i', 't', 'e', 'c', 't', 'u', 'r', 'e'],
        "features"@ =~= seq!['f', 'e', 'a', 't', 'u', 'r', 'e', 's'],
        "total_mb"@ =~= seq!['t', 'o', 't', 'a', 'l', '_', 'm', 'b'],
        "available_mb"@ =~= seq!['a', 'v', 'a', 'i', 'l', 'a', 'b', 'l', 'e', '_', 'm', 'b'],
        "total_gb"@ =~= seq!['t', 'o', 't', 'a', 'l', '_', 'g', 'b'],
        "available_gb"@ =~= seq!['a', 'v', 'a', 'i', 'l', 'a', 'b', 'l', 'e', '_', 'g', 'b'],
        "storage_type"@ =~= seq!['s', 't', 'o', 'r', 'a', 'g', 'e', '_', 't', 'y', 'p', 'e'],
        "node_id"@ =~= seq!['n', 'o', 'd', 'e', '_', 'i', 'd'],
        "node_version"@ =~= seq!['n', 'o', 'd', 'e', '_', 'v', 'e', 'r', 's', 'i', 'o', 'n'],
        "gpus"@ =~= seq!['g', 'p', 'u', 's'],
        "cpu"@ =~= seq!['c', 'p', 'u'],
        "memory"@ =~= seq!['m', 'e', 'm', 'o', 'r', 'y'],
        "storage"@ =~= seq!['s', 't', 'o', 'r', 'a', 'g', 'e'],
        "docker_version"@ =~= seq!['d', 'o', 'c', 'k', 'e', 'r', '_', 'v', 'e', 'r', 's', 'i', 'o', 'n'],
        "container_runtimes"@ =~= seq!['c', 'o', 'n', 't', 'a', 'i', 'n', 'e', 'r', '_', 'r', 'u', 'n', 't', 'i', 'm', 'e', 's'],
        "mcp_adapters"@ =~= seq!['m', 'c', 'p', '_', 'a', 'd', 'a', 'p', 't', 'e', 'r', 's'],
        "X86_64"@ =~= seq!['X', '8', '6', '_', '6', '4'],
        "Aarch64"@ =~= seq!['A', 'a', 'r', 'c', 'h', '6', '4'],
        "Arm"@ =~= seq!['A', 'r', 'm'],
        "Unknown"@ =~= seq!['U', 'n', 'k', 'n', 'o', 'w', 'n'],
        "Ssd"@ =~= seq!['S', 's', 'd'],
        "Hdd"@ =~= seq!['H', 'd', 'd'],
        "Nvme"@ =~= seq!['N', 'v', 'm', 'e'],
{
    reveal_strlit("cuda");
    reveal_strlit("rocm");
    reveal_strlit("vulkan");
    reveal_strlit("metal");
    reveal_strlit("opencl");
    reveal_strlit("vendor");
    reveal_strlit("model");
    reveal_strlit("vram_mb");
    reveal_strlit("compute_capability");
    reveal_strlit("driver_version");
    reveal_strlit("supports");
    reveal_strlit("cores");
    reveal_strlit("threads");
    reveal_strlit("frequency_mhz");
    reveal_strlit("architecture");
    reveal_strlit("features");
    reveal_strlit("total_mb");
    reveal_strlit("available_mb");
    reveal_strlit("total_gb");
    reveal_strlit("available_gb");
    reveal_strlit("storage_type");
    reveal_strlit("node_id");
    reveal_strlit("node_version");
    reveal_strlit("gpus");
    reveal_strlit("cpu");
    reveal_strlit("memory");
    reveal_strlit("storage");
    reveal_strlit("docker_version");
    reveal_strlit("container_runtimes");
    reveal_strlit("mcp_adapters");
    reveal_strlit("X86_64");
    reveal_strlit("Aarch64");
    reveal_strlit("Arm");
    reveal_strlit("Unknown");
    reveal_strlit("Ssd");
    reveal_strlit("Hdd");
    reveal_strlit("Nvme");
}

proof fn lemma_lookup_at(fs: Seq<(Seq<char>, JVal)>, i: int)
    requires
        0 <= i < fs.len(),
        forall|m: int| 0 <= m < i ==> (#[trigger] fs[m]).0 != fs[i].0,
    ensures
        jv_lookup(fs, fs[i].0) == Some(fs[i].1),
{
    lemma_jv_lookup_from(fs, fs[i].0, i);
    assert(fs.skip(i)[0] == fs[i]);
}

proof fn lemma_supports_rt(s: GpuSupports)
    ensures
        dec_supports(enc_supports(s)) == Some(s),
{
    lemma_key_chars();
    reveal_strlit("cuda");
    reveal_strlit("rocm");
    reveal_strlit("vulkan");
    reveal_strlit("metal");
    reveal_strlit("opencl");
    let fs = enc_supports(s)->Obj_0;
    lemma_lookup_at(fs, 0);
    lemma_lookup_at(fs, 1);
    lemma_lookup_at(fs, 2);
    lemma_lookup_at(fs, 3);
    lemma_lookup_at(fs, 4);
}

proof fn lemma_gpu_rt(g: GpuV)
    ensures
        dec_gpu(enc_gpu(g)) == Some(g),
{
    lemma_key_chars();
    reveal_strlit("vendor");
    reveal_strlit("model");
    reveal_strlit("vram_mb");
    reveal_strlit("compute_capability");
    reveal_strlit("driver_version");
    reveal_strlit("supports");
    let fs = enc_gpu(g)->Obj_0;
    lemma_lookup_at(fs, 0);
    lemma_lookup_at(fs, 1);
    lemma_lookup_at(fs, 2);
    lemma_lookup_at(fs, 3);
    lemma_lookup_at(fs, 4);
    lemma_lookup_at(fs, 5);
    lemma_supports_rt(g.supports);
}

proof fn lemma_strs_rt(xs: Seq<Seq<char>>)
    ensures
        dec_strs(enc_strs(xs)) == Some(xs),
    decreases xs.len(),
{
    if xs.len() == 0 {
        assert(enc_strs(xs).len() == 0);
    } else {
        assert(enc_strs(xs)[0] == JVal::Str(xs[0]));
        assert(enc_strs(xs).skip(1) =~= enc_strs(xs.skip(1)));
        lemma_strs_rt(xs.skip(1));
        assert(seq![xs[0]] + xs.skip(1) =~= xs);
    }
}

proof fn lemma_gpus_rt(gs: Seq<GpuV>)
    ensures
        dec_gpus(gs.map_values(|g: GpuV| enc_gpu(g))) == Some(gs),
    decreases gs.len(),
{
    let xs = gs.map_values(|g: GpuV| enc_gpu(g));
    if gs.len() == 0 {
        assert(xs.len() == 0);
    } else {
        assert(xs[0] == enc_gpu(gs[0]));
        lemma_gpu_rt(gs[0]);
        assert(xs.skip(1) =~= gs.skip(1).map_values(|g: GpuV| enc_gpu(g)));
        lemma_gpus_rt(gs.skip(1));
        assert(seq![gs[0]] + gs.skip(1) =~= gs);
    }
}

proof fn lemma_cpu_rt(c: crate::hardware::CpuV)
    ensures
        dec_cpu(enc_cpu(c)) == Some(c),
{
    lemma_key_chars();
    reveal_strlit("vendor");
    reveal_strlit("model");
    reveal_strlit("cores");
    reveal_strlit("threads");
    reveal_strlit("frequency_mhz");
    reveal_strlit("architecture");
    reveal_strlit("features");
    let fs = enc_cpu(c)->Obj_0;
    lemma_lookup_at(fs, 0);
    lemma_lookup_at(fs, 1);
    lemma_lookup_at(fs, 2);
    lemma_lookup_at(fs, 3);
    lemma_lookup_at(fs, 4);
    lemma_lookup_at(fs, 5);
    lemma_lookup_at(fs, 6);
    assert(arch_of_name(arch_name(c.architecture)) == Some(c.architecture)) by {
        reveal_strlit("X86_64");
        reveal_strlit("Aarch64");
        reveal_strlit("Arm");
        reveal_strlit("Unknown");
    }
    lemma_strs_rt(c.features);
}

proof fn lemma_memory_rt(m: crate::hardware::MemoryCapability)
    ensures
        dec_memory(enc_memory(m)) == Some(m),
{
    lemma_key_chars();
    reveal_strlit("total_mb");
    reveal_strlit("available_mb");
    let fs = enc_memory(m)->Obj_0;
    lemma_lookup_at(fs, 0);
    lemma_lookup_at(fs, 1);
}

proof fn lemma_storage_rt(s: crate::hardware::StorageCapability)
    ensures
        dec_storage(enc_storage(s)) == Some(s),
{
    lemma_key_chars();
    reveal_strlit("total_gb");
    reveal_strlit("available_gb");
    reveal_strlit("storage_type");
    let fs = enc_storage(s)->Obj_0;
    lemma_lookup_at(fs, 0);
    lemma_lookup_at(fs, 1);
    lemma_lookup_at(fs, 2);
    assert(storage_of_name(storage_name(s.storage_type)) == Some(s.storage_type)) by {
        reveal_strlit("Ssd");
        reveal_strlit("Hdd");
        reveal_strlit("Nvme");
        reveal_strlit("Unknown");
    }
}

proof fn lemma_caps_dec_enc(c: CapsV)
    ensures
        dec_caps(enc_caps(c)) == Some(c),
{
    lemma_key_chars();
    reveal_strlit("node_id");
    reveal_strlit("node_version");
    reveal_strlit("gpus");
    reveal_strlit("cpu");
    reveal_strlit("memory");
    reveal_strlit("storage");
    reveal_strlit("docker_version");
    reveal_strlit("container_runtimes");
    reveal_strlit("mcp_adapters");
    let fs = enc_caps(c)->Obj_0;
    lemma_lookup_at(fs, 0);
    lemma_lookup_at(fs, 1);
    lemma_lookup_at(fs, 2);
    lemma_lookup_at(fs, 3);
    lemma_lookup_at(fs, 4);
    lemma_lookup_at(fs, 5);
    lemma_lookup_at(fs, 6);
    lemma_lookup_at(fs, 7);
    lemma_lookup_at(fs, 8);
    lemma_gpus_rt(c.gpus);
    lemma_cpu_rt(c.cpu);
    lemma_memory_rt(c.memory);
    lemma_storage_rt(c.storage);
    lemma_strs_rt(c.container_runtimes);
    lemma_strs_rt(c.mcp_adapters);
}

// ---------------------------------------------------------------------------
// Decoding (executable)
// ---------------------------------------------------------------------------

pub(crate) fn get_string(j: &Json, k: &str) -> (r: Option<String>)
    ensures
        (match r {
            Option::Some(s) => get_str(j@, k@) == Some(s@),
            Option::None => get_str(j@, k@) is None,
        }),
{
    match obj_get(j, k) {
        Option::Some(x) => match x {
            Json::Str(s) => Some(s.clone()),
            _ => None,
        },
        Option::None => None,
    }
}

fn get_bool_field(j: &Json, k: &str) -> (r: Option<bool>)
    ensures
        r == get_bool(j@, k@),
{
    match obj_get(j, k) {
        Option::Some(x) => match x {
            Json::Bool(b) => Some(*b),
            _ => None,
        },
        Option::None => None,
    }
}

fn get_u64_field(j: &Json, k: &str) -> (r: Option<u64>)
    ensures
        r == get_u64(j@, k@),
{
    match obj_get(j, k) {
        Option::Some(x) => match x {
            Json::UInt(n) => Some(*n),
            _ => None,
        },
        Option::None => None,
    }
}

fn get_u32_field(j: &Json, k: &str) -> (r: Option<u32>)
    ensures
        r == get_u32(j@, k@),
{
    match obj_get(j, k) {
        Option::Some(x) => match x {
            Json::UInt(n) => {
                if *n <= 0xffff_ffff {
                    Some(*n as u32)
                } else {
                    None
                }
            },
            _ => None,
        },
        Option::None => None,
    }
}

fn get_opt_string(j: &Json, k: &str) -> (r: Option<Option<String>>)
    ensures
        (match r {
            Option::Some(o) => get_opt_str(j@, k@) == Some(opt_view(o)),
            Option::None => get_opt_str(j@, k@) is None,
        }),
{
    match obj_get(j, k) {
        Option::Some(x) => match x {
            Json::Null => Some(None),
            Json::Str(s) => Some(Some(s.clone())),
            _ => None,
        },
        Option::None => Some(None),
    }
}

#[verifier::loop_isolation(false)]
fn strs_from_json(a: &Vec<Json>) -> (r: Option<Vec<String>>)
    ensures
        (match r {
            Option::Some(v) => dec_strs(jv_seq(a@)) == Some(crate::hardware::strs_view(v@)),
            Option::None => dec_strs(jv_seq(a@)) is None,
        }),
{
    let ghost xs = jv_seq(a@);
    proof {
        lemma_jv_seq(a@);
    }
    let mut out: Vec<String> = Vec::new();
    let n = a.len();
    let mut i: usize = 0;
    proof {
        assert(xs.skip(0) =~= xs);
        if dec_strs(xs) is Some {
            let t = dec_strs(xs).unwrap();
            assert(crate::hardware::strs_view(out@) + t =~= t);
        }
    }
    while i < n
        invariant
            0 <= i <= n,
            (match dec_strs(xs.skip(i as int)) {
                Option::Some(t) => dec_strs(xs)
                    == Some(crate::hardware::strs_view(out@) + t),
                Option::None => dec_strs(xs) is None,
            }),
        decreases n - i,
    {
        proof {
            assert(xs.skip(i as int)[0] == xs[i as int]);
            assert(xs[i as int] == a@[i as int].jv());
            assert(xs.skip(i as int).skip(1) =~= xs.skip(i + 1));
        }
        match &a[i] {
            Json::Str(s) => {
                let ghost out0 = out@;
                out.push(s.clone());
                proof {
                    if dec_strs(xs.skip(i + 1)) is Some {
                        let t = dec_strs(xs.skip(i + 1)).unwrap();
                        assert(crate::hardware::strs_view(out@)
                            =~= crate::hardware::strs_view(out0).push(s@));
                        assert(crate::hardware::strs_view(out0) + (seq![s@] + t)
                            =~= crate::hardware::strs_view(out@) + t);
                    }
                }
                i = i + 1;
            },
            _ => {
                return None;
            },
        }
    }
    proof {
        assert(xs.skip(n as int).len() == 0);
        assert(crate::hardware::strs_view(out@) + Seq::<Seq<char>>::empty()
            =~= crate::hardware::strs_view(out@));
    }
    Some(out)
}

fn supports_from_json(j: &Json) -> (r: Option<GpuSupports>)
    ensures
        r == dec_supports(j@),
{
    let cuda = get_bool_field(j, "cuda");
    let rocm = get_bool_field(j, "rocm");
    let vulkan = get_bool_field(j, "vulkan");
    let metal = get_bool_field(j, "metal");
    let opencl = get_bool_field(j, "opencl");
    match (cuda, rocm, vulkan, metal, opencl) {
        (Option::Some(cuda), Option::Some(rocm), Option::Some(vulkan),
            Option::Some(metal), Option::Some(opencl)) =>
            Some(GpuSupports { cuda, rocm, vulkan, metal, opencl }),
        _ => None,
    }
}

fn gpu_from_json(j: &Json) -> (r: Option<GpuCapability>)
    ensures
        (match r {
            Option::Some(g) => dec_gpu(j@) == Some(g@),
            Option::None => dec_gpu(j@) is None,
        }),
{
    let vendor = get_string(j, "vendor");
    let model = get_string(j, "model");
    let vram_mb = get_u64_field(j, "vram_mb");
    let compute_capability = get_opt_string(j, "compute_capability");
    let driver_version = get_string(j, "driver_version");
    match (vendor, model, vram_mb, compute_capability, driver_version) {
        (Option::Some(vendor), Option::Some(model), Option::Some(vram_mb),
            Option::Some(compute_capability), Option::Some(driver_version)) => {
            match obj_get(j, "supports") {
                Option::Some(sj) => match supports_from_json(sj) {
                    Option::Some(supports) => Some(GpuCapability {
                        vendor, model, vram_mb, compute_capability, driver_version, supports,
                    }),
                    Option::None => None,
                },
                Option::None => None,
            }
        },
        _ => None,
    }
}

#[verifier::loop_isolation(false)]
fn gpus_from_json(a: &Vec<Json>) -> (r: Option<Vec<GpuCapability>>)
    ensures
        (match r {
            Option::Some(v) => dec_gpus(jv_seq(a@))
                == Some(v@.map_values(|g: GpuCapability| g@)),
            Option::None => dec_gpus(jv_seq(a@)) is None,
        }),
{
    let ghost xs = jv_seq(a@);
    proof {
        lemma_jv_seq(a@);
    }
    let mut out: Vec<GpuCapability> = Vec::new();
    let n = a.len();
    let mut i: usize = 0;
    proof {
        assert(xs.skip(0) =~= xs);
        if dec_gpus(xs) is Some {
            let t = dec_gpus(xs).unwrap();
            assert(out@.map_values(|g: GpuCapability| g@) + t =~= t);
        }
    }
    while i < n
        invariant
            0 <= i <= n,
            (match dec_gpus(xs.skip(i as int)) {
                Option::Some(t) => dec_gpus(xs)
                    == Some(out@.map_values(|g: GpuCapability| g@) + t),
                Option::None => dec_gpus(xs) is None,
            }),
        decreases n - i,
    {
        proof {
            assert(xs.skip(i as int)[0] == xs[i as int]);
            assert(xs[i as int] == a@[i as int].jv());
            assert(xs.skip(i as int).skip(1) =~= xs.skip(i + 1));
        }
        match gpu_from_json(&a[i]) {
            Option::Some(g) => {
                let ghost out0 = out@;
                let ghost gv = g@;
                out.push(g);
                proof {
                    if dec_gpus(xs.skip(i + 1)) is Some {
                        let t = dec_gpus(xs.skip(i + 1)).unwrap();
                        assert(out@.map_values(|g: GpuCapability| g@)
                            =~= out0.map_values(|g: GpuCapability| g@).push(gv));
                        assert(out0.map_values(|g: GpuCapability| g@) + (seq![gv] + t)
                            =~= out@.map_values(|g: GpuCapability| g@) + t);
                    }
                }
                i = i + 1;
            },
            Option::None => {
                return None;
            },
        }
    }
    proof {
        assert(xs.skip(n as int).len() == 0);
        assert(out@.map_values(|g: GpuCapability| g@) + Seq::<GpuV>::empty()
            =~= out@.map_values(|g: GpuCapability| g@));
    }
    Some(out)
}

fn arch_from_name(s: &str) -> (r: Option<CpuArchitecture>)
    ensures
        r == arch_of_name(s@),
{
    if str_eq(s, "X86_64") { Some(CpuArchitecture::X86_64) }
    else if str_eq(s, "Aarch64") { Some(CpuArchitecture::Aarch64) }
    else if str_eq(s, "Arm") { Some(CpuArchitecture::Arm) }
    else if str_eq(s, "Unknown") { Some(CpuArchitecture::Unknown) }
    else { None }
}

fn storage_from_name(s: &str) -> (r: Option<StorageType>)
    ensures
        r == storage_of_name(s@),
{
    if str_eq(s, "Ssd") { Some(StorageType::Ssd) }
    else if str_eq(s, "Hdd") { Some(StorageType::Hdd) }
    else if str_eq(s, "Nvme") { Some(StorageType::Nvme) }
    else if str_eq(s, "Unknown") { Some(StorageType::Unknown) }
    else { None }
}

fn cpu_from_json(j: &Json) -> (r: Option<crate::hardware::CpuCapability>)
    ensures
        (match r {
            Option::Some(c) => dec_cpu(j@) == Some(c@),
            Option::None => dec_cpu(j@) is None,
        }),
{
    let vendor = get_string(j, "vendor");
    let model = get_string(j, "model");
    let cores = get_u32_field(j, "cores");
    let threads = get_u32_field(j, "threads");
    let frequency_mhz = get_u64_field(j, "frequency_mhz");
    match (vendor, model, cores, threads, frequency_mhz) {
        (Option::Some(vendor), Option::Some(model), Option::Some(cores),
            Option::Some(threads), Option::Some(frequency_mhz)) => {
            let an = get_string(j, "architecture");
            match (an, obj_get(j, "features")) {
                (Option::Some(an), Option::Some(fj)) => {
                    match fj {
                        Json::Arr(fx) => {
                            match (arch_from_name(an.as_str()), strs_from_json(fx)) {
                                (Option::Some(architecture), Option::Some(features)) =>
                                    Some(crate::hardware::CpuCapability {
                                        vendor, model, cores, threads, frequency_mhz,
                                        architecture, features,
                                    }),
                                _ => None,
                            }
                        },
                        _ => None,
                    }
                },
                _ => None,
            }
        },
        _ => None,
    }
}

fn memory_from_json(j: &Json) -> (r: Option<crate::hardware::MemoryCapability>)
    ensures
        r == dec_memory(j@),
{
    match (get_u64_field(j, "total_mb"), get_u64_field(j, "available_mb")) {
        (Option::Some(total_mb), Option::Some(available_mb)) =>
            Some(crate::hardware::MemoryCapability { total_mb, available_mb }),
        _ => None,
    }
}

fn storage_from_json(j: &Json) -> (r: Option<crate::hardware::StorageCapability>)
    ensures
        r == dec_storage(j@),
{
    match (get_u64_field(j, "total_gb"), get_u64_field(j, "available_gb"),
        get_string(j, "storage_type")) {
        (Option::Some(total_gb), Option::Some(available_gb), Option::Some(tn)) => {
            match storage_from_name(tn.as_str()) {
                Option::Some(storage_type) => Some(crate::hardware::StorageCapability {
                    total_gb, available_gb, storage_type,
                }),
                Option::None => None,
            }
        },
        _ => None,
    }
}

/// Reads a capabilities snapshot back out of its JSON value.
pub fn caps_from_json(j: &Json) -> (r: Option<NodeCapabilities>)
    ensures
        (match r {
            Option::Some(c) => dec_caps(j@) == Some(c@),
            Option::None => dec_caps(j@) is None,
        }),
{
    let node_id = get_string(j, "node_id");
    let node_version = get_string(j, "node_version");
    match (node_id, node_version, obj_get(j, "gpus"), obj_get(j, "cpu"),
        obj_get(j, "memory"), obj_get(j, "storage")) {
        (Option::Some(node_id), Option::Some(node_version), Option::Some(gj),
            Option::Some(cj), Option::Some(mj), Option::Some(sj)) => {
            match gj {
                Json::Arr(gx) => {
                    let gpus = gpus_from_json(gx);
                    let cpu = cpu_from_json(cj);
                    let memory = memory_from_json(mj);
                    let storage = storage_from_json(sj);
                    let docker_version = get_opt_string(j, "docker_version");
                    match (gpus, cpu, memory, storage, docker_version,
                        obj_get(j, "container_runtimes"), obj_get(j, "mcp_adapters")) {
                        (Option::Some(gpus), Option::Some(cpu), Option::Some(memory),
                            Option::Some(storage), Option::Some(docker_version),
                            Option::Some(rj), Option::Some(aj)) => {
                            match (rj, aj) {
                                (Json::Arr(rx), Json::Arr(ax)) => {
                                    match (strs_from_json(rx), strs_from_json(ax)) {
                                        (Option::Some(container_runtimes),
                                            Option::Some(mcp_adapters)) =>
                                            Some(NodeCapabilities {
                                                node_id, node_version, gpus, cpu, memory,
                                                storage, docker_version, container_runtimes,
                                                mcp_adapters,
                                            }),
                                        _ => None,
                                    }
                                },
                                _ => None,
                            }
                        },
                        _ => None,
                    }
                },
                _ => None,
            }
        },
        _ => None,
    }
}

fn job_from_json(j: &Json) -> (r: Option<JobData>)
    ensures
        (match r {
            Option::Some(job) => dec_job(j@) == Some(job@),
            Option::None => dec_job(j@) is None,
        }),
{
    let id = get_string(j, "id");
    let client_id = get_string(j, "client_id");
    let timeout_seconds = get_u64_field(j, "timeout_seconds");
    let max_cost_cents = get_u32_field(j, "max_cost_cents");
    match (id, client_id, obj_get(j, "payload"), timeout_seconds, max_cost_cents) {
        (Option::Some(id), Option::Some(client_id), Option::Some(pj),
            Option::Some(timeout_seconds), Option::Some(max_cost_cents)) => {
            let payload = pj.duplicate();
            Some(JobData { id, client_id, payload, timeout_seconds, max_cost_cents })
        },
        _ => None,
    }
}

/// Reads one inbound message out of its JSON value.
pub fn orchestrator_message_from_json(j: &Json) -> (r: Option<OrchestratorMessage>)
    ensures
        (match r {
            Option::Some(m) => dec_omsg(j@) == Some(m@),
            Option::None => dec_omsg(j@) is None,
        }),
{
    match get_string(j, "type") {
        Option::Some(t) => {
            if str_eq(t.as_str(), "registered") {
                match get_string(j, "node_id") {
                    Option::Some(node_id) => Some(OrchestratorMessage::Registered { node_id }),
                    Option::None => None,
                }
            } else if str_eq(t.as_str(), "job_assignment") {
                match obj_get(j, "job") {
                    Option::Some(jj) => match job_from_json(jj) {
                        Option::Some(job) => Some(OrchestratorMessage::JobAssignment { job }),
                        Option::None => None,
                    },
                    Option::None => None,
                }
            } else if str_eq(t.as_str(), "cancel_job") {
                match get_string(j, "job_id") {
                    Option::Some(job_id) => Some(OrchestratorMessage::CancelJob { job_id }),
                    Option::None => None,
                }
            } else if str_eq(t.as_str(), "config_update") {
                match obj_get(j, "config") {
                    Option::Some(cj) => Some(OrchestratorMessage::ConfigUpdate {
                        config: cj.duplicate(),
                    }),
                    Option::None => None,
                }
            } else if str_eq(t.as_str(), "error") {
                match (get_string(j, "code"), get_string(j, "message")) {
                    (Option::Some(code), Option::Some(message)) =>
                        Some(OrchestratorMessage::Error { code, message }),
                    _ => None,
                }
            } else {
                None
            }
        },
        Option::None => None,
    }
}

/// Reads one inbound frame: parse the text, then the message. A frame that
/// does not parse, or parses to an unknown shape, is refused.
pub fn decode_orchestrator_frame(text: &str) -> (r: Option<OrchestratorMessage>)
    ensures
        (match r {
            Option::Some(m) => spec_dec_frame(text@) == Some(m@),
            Option::None => spec_dec_frame(text@) is None,
        }),
{
    match parse_json(text) {
        Option::Some(j) => orchestrator_message_from_json(&j),
        Option::None => None,
    }
}

proof fn lemma_strs_wf(xs: Seq<Seq<char>>)
    ensures
        crate::json::wf_json(JVal::Arr(enc_strs(xs))),
{
    assert forall|i: int| 0 <= i < enc_strs(xs).len()
        implies crate::json::wf_json(#[trigger] enc_strs(xs)[i]) by {
        assert(enc_strs(xs)[i] == JVal::Str(xs[i]));
    }
}

proof fn lemma_supports_wf(s: GpuSupports)
    ensures
        crate::json::wf_json(enc_supports(s)),
{
    let fs = enc_supports(s)->Obj_0;
    assert forall|i: int| 0 <= i < fs.len()
        implies crate::json::wf_json((#[trigger] fs[i]).1) by {
        assert(fs[i].1 is Bool);
    }
}

proof fn lemma_gpu_wf(g: GpuV)
    ensures
        crate::json::wf_json(enc_gpu(g)),
{
    lemma_supports_wf(g.supports);
    let fs = enc_gpu(g)->Obj_0;
    assert forall|i: int| 0 <= i < fs.len()
        implies crate::json::wf_json((#[trigger] fs[i]).1) by {
        if i == 3 {
            assert(fs[i].1 == enc_opt_str(g.compute_capability));
        } else if i == 5 {
            assert(fs[i].1 == enc_supports(g.supports));
        }
    }
}

proof fn lemma_cpu_wf(c: crate::hardware::CpuV)
    ensures
        crate::json::wf_json(enc_cpu(c)),
{
    lemma_strs_wf(c.features);
    let fs = enc_cpu(c)->Obj_0;
    assert forall|i: int| 0 <= i < fs.len()
        implies crate::json::wf_json((#[trigger] fs[i]).1) by {
        if i == 6 {
            assert(fs[i].1 == JVal::Arr(enc_strs(c.features)));
        }
    }
}

/// Every frame the snapshot encoder builds is well-formed: it holds only
/// strings, numbers the protocol uses, booleans and their composites.
proof fn lemma_caps_wf(c: CapsV)
    ensures
        crate::json::wf_json(enc_caps(c)),
{
    lemma_cpu_wf(c.cpu);
    lemma_strs_wf(c.container_runtimes);
    lemma_strs_wf(c.mcp_adapters);
    let gx = c.gpus.map_values(|g: GpuV| enc_gpu(g));
    assert forall|i: int| 0 <= i < gx.len()
        implies crate::json::wf_json(#[trigger] gx[i]) by {
        assert(gx[i] == enc_gpu(c.gpus[i]));
        lemma_gpu_wf(c.gpus[i]);
    }
    assert(crate::json::wf_json(JVal::Arr(gx)));
    let fs = enc_caps(c)->Obj_0;
    assert forall|i: int| 0 <= i < fs.len()
        implies crate::json::wf_json((#[trigger] fs[i]).1) by {
        if i == 2 {
            assert(fs[i].1 == JVal::Arr(gx));
        } else if i == 3 {
            assert(fs[i].1 == enc_cpu(c.cpu));
        } else if i == 4 {
            assert(fs[i].1 == enc_memory(c.memory));
            assert forall|q: int| 0 <= q < enc_memory(c.memory)->Obj_0.len()
                implies crate::json::wf_json((#[trigger] enc_memory(c.memory)->Obj_0[q]).1) by {
                assert(enc_memory(c.memory)->Obj_0[q].1 is UInt);
            }
        } else if i == 5 {
            assert(fs[i].1 == enc_storage(c.storage));
            assert forall|q: int| 0 <= q < enc_storage(c.storage)->Obj_0.len()
                implies crate::json::wf_json((#[trigger] enc_storage(c.storage)->Obj_0[q]).1) by {
            }
        } else if i == 7 {
            assert(fs[i].1 == JVal::Arr(enc_strs(c.container_runtimes)));
        } else if i == 8 {
            assert(fs[i].1 == JVal::Arr(enc_strs(c.mcp_adapters)));
        }
    }
}

/// The capabilities snapshot survives a full round trip over the wire:
/// printing its frame, parsing the text back, and reading the fields out
/// returns every field unchanged.
pub proof fn lemma_caps_round_trip(c: CapsV)
    ensures
        sp_top(spec_print(enc_caps(c))) == Some(enc_caps(c)),
        dec_caps(enc_caps(c)) == Some(c),
{
    lemma_caps_wf(c);
    crate::json::lemma_print_then_parse(enc_caps(c));
    lemma_caps_dec_enc(c);
}

} // verus!
