//! The machine snapshot sent at registration, and the pure parts of the
//! capability probe: assembling the snapshot from observed readings,
//! classifying storage, parsing tool output.

use vstd::prelude::*;

verus! {

#[derive(Clone, Copy, PartialEq, Eq, Structural, Debug)]
pub enum CpuArchitecture {
    X86_64,
    Aarch64,
    Arm,
    Unknown,
}

#[derive(Clone, Copy, PartialEq, Eq, Structural, Debug)]
pub enum StorageType {
    Ssd,
    Hdd,
    Nvme,
    Unknown,
}

#[derive(Clone, Copy, PartialEq, Eq, Structural, Debug)]
pub struct GpuSupports {
    pub cuda: bool,
    pub rocm: bool,
    pub vulkan: bool,
    pub metal: bool,
    pub opencl: bool,
}

#[derive(Clone, Copy, PartialEq, Eq, Structural, Debug)]
pub struct MemoryCapability {
    pub total_mb: u64,
    pub available_mb: u64,
}

#[derive(Clone, Copy, PartialEq, Eq, Structural, Debug)]
pub struct StorageCapability {
    pub total_gb: u64,
    pub available_gb: u64,
    pub storage_type: StorageType,
}

#[derive(Clone, Debug)]
pub struct GpuCapability {
    pub vendor: String,
    pub model: String,
    pub vram_mb: u64,
    pub compute_capability: Option<String>,
    pub driver_version: String,
    pub supports: GpuSupports,
}

#[derive(Clone, Debug)]
pub struct CpuCapability {
    pub vendor: String,
    pub model: String,
    pub cores: u32,
    pub threads: u32,
    pub frequency_mhz: u64,
    pub architecture: CpuArchitecture,
    pub features: Vec<String>,
}

#[derive(Clone, Debug)]
pub struct NodeCapabilities {
    pub node_id: String,
    pub node_version: String,
    pub gpus: Vec<GpuCapability>,
    pub cpu: CpuCapability,
    pub memory: MemoryCapability,
    pub storage: StorageCapability,
    pub docker_version: Option<String>,
    pub container_runtimes: Vec<String>,
    pub mcp_adapters: Vec<String>,
}

// ---------------------------------------------------------------------------
// Models
// ---------------------------------------------------------------------------

pub struct GpuV {
    pub vendor: Seq<char>,
    pub model: Seq<char>,
    pub vram_mb: u64,
    pub compute_capability: Option<Seq<char>>,
    pub driver_version: Seq<char>,
    pub supports: GpuSupports,
}

pub struct CpuV {
    pub vendor: Seq<char>,
    pub model: Seq<char>,
    pub cores: u32,
    pub threads: u32,
    pub frequency_mhz: u64,
    pub architecture: CpuArchitecture,
    pub features: Seq<Seq<char>>,
}

pub struct CapsV {
    pub node_id: Seq<char>,
    pub node_version: Seq<char>,
    pub gpus: Seq<GpuV>,
    pub cpu: CpuV,
    pub memory: MemoryCapability,
    pub storage: StorageCapability,
    pub docker_version: Option<Seq<char>>,
    pub container_runtimes: Seq<Seq<char>>,
    pub mcp_adapters: Seq<Seq<char>>,
}

/// The model of an optional string.
pub open spec fn opt_view(o: Option<String>) -> Option<Seq<char>> {
    match o {
        Option::Some(s) => Some(s@),
        Option::None => None,
    }
}

/// The models of a list of strings.
pub open spec fn strs_view(v: Seq<String>) -> Seq<Seq<char>> {
    v.map_values(|s: String| s@)
}

impl View for GpuCapability {
    type V = GpuV;

    open spec fn view(&self) -> GpuV {
        GpuV {
            vendor: self.vendor@,
            model: self.model@,
            vram_mb: self.vram_mb,
            compute_capability: opt_view(self.compute_capability),
            driver_version: self.driver_version@,
            supports: self.supports,
        }
    }
}

impl View for CpuCapability {
    type V = CpuV;

    open spec fn view(&self) -> CpuV {
        CpuV {
            vendor: self.vendor@,
            model: self.model@,
            cores: self.cores,
            threads: self.threads,
            frequency_mhz: self.frequency_mhz,
            architecture: self.architecture,
            features: strs_view(self.features@),
        }
    }
}

impl View for NodeCapabilities {
    type V = CapsV;

    open spec fn view(&self) -> CapsV {
        CapsV {
            node_id: self.node_id@,
            node_version: self.node_version@,
            gpus: self.gpus@.map_values(|g: GpuCapability| g@),
            cpu: self.cpu@,
            memory: self.memory,
            storage: self.storage,
            docker_version: opt_view(self.docker_version),
            container_runtimes: strs_view(self.container_runtimes@),
            mcp_adapters: strs_view(self.mcp_adapters@),
        }
    }
}

/// The invariants of a published snapshot: at least as many logical threads
/// as physical cores, available memory within the total, and no feature
/// listed twice.
pub open spec fn caps_wf(c: CapsV) -> bool {
    &&& c.cpu.threads >= c.cpu.cores
    &&& c.memory.available_mb <= c.memory.total_mb
    &&& forall|i: int, j: int| 0 <= i < j < c.cpu.features.len()
        ==> #[trigger] c.cpu.features[i] != #[trigger] c.cpu.features[j]
}

// ---------------------------------------------------------------------------
// Pure probe logic
// ---------------------------------------------------------------------------

/// The architecture for a target tag.
pub open spec fn arch_of_tag(s: Seq<char>) -> CpuArchitecture {
    if s == "x86_64"@ { CpuArchitecture::X86_64 }
    else if s == "aarch64"@ { CpuArchitecture::Aarch64 }
    else if s == "arm"@ { CpuArchitecture::Arm }
    else { CpuArchitecture::Unknown }
}

/// Maps the build target's architecture tag to its label.
pub fn detect_cpu_architecture(tag: &str) -> (a: CpuArchitecture)
    ensures
        a == arch_of_tag(tag@),
{
    if crate::text::str_eq(tag, "x86_64") { CpuArchitecture::X86_64 }
    else if crate::text::str_eq(tag, "aarch64") { CpuArchitecture::Aarch64 }
    else if crate::text::str_eq(tag, "arm") { CpuArchitecture::Arm }
    else { CpuArchitecture::Unknown }
}

pub open spec fn maybe_feature(s: Seq<Seq<char>>, present: bool, name: Seq<char>) -> Seq<Seq<char>> {
    if present { s.push(name) } else { s }
}

/// The feature list for a set of probed flags, in a fixed order.
pub open spec fn spec_cpu_features(avx: bool, avx2: bool, avx512f: bool, sse42: bool,
    fma: bool) -> Seq<Seq<char>> {
    maybe_feature(maybe_feature(maybe_feature(maybe_feature(maybe_feature(
        Seq::<Seq<char>>::empty(), avx, "avx"@), avx2, "avx2"@), avx512f, "avx512"@),
        sse42, "sse4.2"@), fma, "fma"@)
}

/// Builds the feature list from the probed flags. Only detected features
/// appear, each at most once.
pub fn detect_cpu_features(avx: bool, avx2: bool, avx512f: bool, sse42: bool, fma: bool)
    -> (out: Vec<String>)
    ensures
        strs_view(out@) == spec_cpu_features(avx, avx2, avx512f, sse42, fma),
{
    let mut out: Vec<String> = Vec::new();
    proof {
        assert(strs_view(out@) =~= Seq::<Seq<char>>::empty());
    }
    if avx {
        let ghost s0 = strs_view(out@);
        out.push(String::from_str("avx"));
        proof {
            assert(strs_view(out@) =~= s0.push("avx"@));
        }
    }
    if avx2 {
        let ghost s0 = strs_view(out@);
        out.push(String::from_str("avx2"));
        proof {
            assert(strs_view(out@) =~= s0.push("avx2"@));
        }
    }
    if avx512f {
        let ghost s0 = strs_view(out@);
        out.push(String::from_str("avx512"));
        proof {
            assert(strs_view(out@) =~= s0.push("avx512"@));
        }
    }
    if sse42 {
        let ghost s0 = strs_view(out@);
        out.push(String::from_str("sse4.2"));
        proof {
            assert(strs_view(out@) =~= s0.push("sse4.2"@));
        }
    }
    if fma {
        let ghost s0 = strs_view(out@);
        out.push(String::from_str("fma"));
        proof {
            assert(strs_view(out@) =~= s0.push("fma"@));
        }
    }
    out
}

/// Whether some element of the list has this text.
pub open spec fn contains_text(v: Seq<String>, x: Seq<char>) -> bool {
    exists|k: int| 0 <= k < v.len() && (#[trigger] v[k])@ == x
}

/// Whether some element of `v` has this text.
#[verifier::loop_isolation(false)]
fn contains_string(v: &Vec<String>, x: &str) -> (r: bool)
    ensures
        r == contains_text(v@, x@),
{
    let n = v.len();
    let mut i: usize = 0;
    while i < n
        invariant
            0 <= i <= n,
            forall|k: int| 0 <= k < i ==> (#[trigger] v@[k])@ != x@,
        decreases n - i,
    {
        if crate::text::str_eq(v[i].as_str(), x) {
            return true;
        }
        i = i + 1;
    }
    false
}

/// Keeps the first occurrence of each text and drops the rest.
#[verifier::loop_isolation(false)]
pub fn dedup_strings(v: Vec<String>) -> (out: Vec<String>)
    ensures
        forall|i: int, j: int| 0 <= i < j < out@.len() ==> (#[trigger] out@[i])@ != (#[trigger] out@[j])@,
        forall|i: int| 0 <= i < out@.len() ==> contains_text(v@, (#[trigger] out@[i])@),
        forall|k: int| 0 <= k < v@.len() ==> contains_text(out@, (#[trigger] v@[k])@),
{
    let mut out: Vec<String> = Vec::new();
    let n = v.len();
    let mut idx: usize = 0;
    while idx < n
        invariant
            0 <= idx <= n,
            forall|i: int, j: int| 0 <= i < j < out@.len()
                ==> (#[trigger] out@[i])@ != (#[trigger] out@[j])@,
            forall|i: int| 0 <= i < out@.len() ==> contains_text(v@, (#[trigger] out@[i])@),
            forall|k: int| 0 <= k < idx ==> contains_text(out@, (#[trigger] v@[k])@),
        decreases n - idx,
    {
        let ghost out_pre = out@;
        let seen = contains_string(&out, v[idx].as_str());
        if !seen {
            out.push(v[idx].clone());
            proof {
                assert(out@[out@.len() - 1]@ == v@[idx as int]@);
                assert(forall|i: int| 0 <= i < out_pre.len()
                    ==> out@[i] == #[trigger] out_pre[i]);
            }
        }
        proof {
            assert forall|i: int| 0 <= i < out@.len() implies contains_text(v@,
                (#[trigger] out@[i])@) by {
                if i < out_pre.len() {
                    assert(out@[i] == out_pre[i]);
                    assert(contains_text(v@, out_pre[i]@));
                } else {
                    assert(out@[i]@ == v@[idx as int]@);
                    assert(contains_text(v@, v@[idx as int]@));
                }
            }
            assert forall|k: int| 0 <= k < idx + 1 implies contains_text(out@,
                (#[trigger] v@[k])@) by {
                if k < idx {
                    let i0 = choose|i: int| 0 <= i < out_pre.len()
                        && (#[trigger] out_pre[i])@ == v@[k]@;
                    assert(out@[i0] == out_pre[i0]);
                    assert(out@[i0]@ == v@[k]@);
                } else {
                    if seen {
                        let i0 = choose|i: int| 0 <= i < out_pre.len()
                            && (#[trigger] out_pre[i])@ == v@[idx as int]@;
                        assert(out@[i0] == out_pre[i0]);
                        assert(out@[i0]@ == v@[k]@);
                    } else {
                        assert(out@[out@.len() - 1]@ == v@[k]@);
                    }
                }
            }
        }
        idx = idx + 1;
    }
    out
}

/// The storage class a device name suggests: explicit markers win, and a
/// modern machine without one is assumed solid-state.
pub open spec fn spec_storage_type(name: Seq<char>) -> StorageType {
    if crate::text::contains_seq(name, "nvme"@) { StorageType::Nvme }
    else if crate::text::contains_seq(name, "ssd"@) { StorageType::Ssd }
    else { StorageType::Ssd }
}

/// Classifies a disk from its lower-cased device name.
pub fn detect_storage_type(name: &str) -> (t: StorageType)
    ensures
        t == spec_storage_type(name@),
{
    if crate::text::str_contains(name, "nvme") { StorageType::Nvme }
    else if crate::text::str_contains(name, "ssd") { StorageType::Ssd }
    else { StorageType::Ssd }
}

/// Assembles the published snapshot from raw observations, establishing its
/// invariants: at least as many threads as cores, available memory within
/// the total, and a deduplicated feature list.
pub fn assemble_capabilities(node_id: String, node_version: String, vendor: String,
    model: String, cores: u32, threads: u32, frequency_mhz: u64,
    architecture: CpuArchitecture, features: Vec<String>, total_mb: u64, available_mb: u64,
    storage: StorageCapability, gpus: Vec<GpuCapability>, docker_version: Option<String>,
    container_runtimes: Vec<String>) -> (c: NodeCapabilities)
    ensures
        caps_wf(c@),
        c.node_id == node_id,
        c.node_version == node_version,
        c.cpu.vendor == vendor,
        c.cpu.model == model,
        c.cpu.cores == cores,
        c.cpu.threads == (if threads >= cores { threads } else { cores }),
        c.cpu.frequency_mhz == frequency_mhz,
        c.cpu.architecture == architecture,
        forall|i: int| 0 <= i < c.cpu.features@.len()
            ==> contains_text(features@, (#[trigger] c.cpu.features@[i])@),
        forall|k: int| 0 <= k < features@.len()
            ==> contains_text(c.cpu.features@, (#[trigger] features@[k])@),
        c.memory.total_mb == total_mb,
        c.memory.available_mb == (if available_mb <= total_mb { available_mb } else { total_mb }),
        c.storage == storage,
        c.gpus == gpus,
        c.docker_version == docker_version,
        c.container_runtimes == container_runtimes,
        c.mcp_adapters@.len() == 0,
{
    let deduped = dedup_strings(features);
    let cpu = CpuCapability {
        vendor,
        model,
        cores,
        threads: if threads >= cores { threads } else { cores },
        frequency_mhz,
        architecture,
        features: deduped,
    };
    let memory = MemoryCapability {
        total_mb,
        available_mb: if available_mb <= total_mb { available_mb } else { total_mb },
    };
    NodeCapabilities {
        node_id,
        node_version,
        gpus,
        cpu,
        memory,
        storage,
        docker_version,
        container_runtimes,
        mcp_adapters: Vec::new(),
    }
}

// ---------------------------------------------------------------------------
// Trimming and number reading
// ---------------------------------------------------------------------------

pub open spec fn is_space(c: char) -> bool {
    c == ' ' || c == '\t' || c == '\r' || c == '\n'
}

pub open spec fn trim_start_text(s: Seq<char>) -> Seq<char>
    decreases s.len(),
{
    if s.len() > 0 && is_space(s[0]) {
        trim_start_text(s.skip(1))
    } else {
        s
    }
}

pub open spec fn trim_end_text(s: Seq<char>) -> Seq<char>
    decreases s.len(),
{
    if s.len() > 0 && is_space(s.last()) {
        trim_end_text(s.drop_last())
    } else {
        s
    }
}

/// The text with surrounding whitespace removed.
pub open spec fn trim_text(s: Seq<char>) -> Seq<char> {
    trim_end_text(trim_start_text(s))
}

proof fn lemma_trim_start_skip(s: Seq<char>, a: int)
    requires
        0 <= a <= s.len(),
        forall|k: int| 0 <= k < a ==> is_space(#[trigger] s[k]),
        a < s.len() ==> !is_space(s[a]),
    ensures
        trim_start_text(s) == s.skip(a),
    decreases a,
{
    if a == 0 {
        assert(s.skip(0) =~= s);
    } else {
        assert(is_space(s[0]));
        assert(forall|k: int| 0 <= k < a - 1 ==> is_space(#[trigger] s.skip(1)[k]));
        assert(a - 1 < s.skip(1).len() ==> !is_space(s.skip(1)[a - 1]));
        lemma_trim_start_skip(s.skip(1), a - 1);
        assert(s.skip(1).skip(a - 1) =~= s.skip(a));
    }
}

proof fn lemma_trim_end_take(s: Seq<char>, b: int)
    requires
        0 <= b <= s.len(),
        forall|k: int| b <= k < s.len() ==> is_space(#[trigger] s[k]),
        b > 0 ==> !is_space(s[b - 1]),
    ensures
        trim_end_text(s) == s.take(b),
    decreases s.len(),
{
    if b == s.len() {
        if s.len() > 0 {
            assert(!is_space(s.last()));
        }
        assert(s.take(b) =~= s);
    } else {
        assert(is_space(s.last()));
        let t = s.drop_last();
        assert(t =~= s.take(s.len() - 1));
        assert(forall|k: int| b <= k < t.len() ==> is_space(#[trigger] t[k]));
        assert(b > 0 ==> !is_space(t[b - 1]));
        lemma_trim_end_take(t, b);
        assert(t.take(b) =~= s.take(b));
    }
}

fn char_is_space(c: char) -> (r: bool)
    ensures
        r == is_space(c),
{
    c == ' ' || c == '\t' || c == '\r' || c == '\n'
}

/// Removes surrounding whitespace.
#[verifier::loop_isolation(false)]
pub fn trim_str(s: &str) -> (out: String)
    ensures
        out@ == trim_text(s@),
{
    let n = s.unicode_len();
    let mut a: usize = 0;
    while a < n && char_is_space(s.get_char(a))
        invariant
            0 <= a <= n,
            forall|k: int| 0 <= k < a ==> is_space(#[trigger] s@[k]),
        decreases n - a,
    {
        a = a + 1;
    }
    let mut b: usize = n;
    while b > a && char_is_space(s.get_char(b - 1))
        invariant
            a <= b <= n,
            forall|k: int| b <= k < n ==> is_space(#[trigger] s@[k]),
        decreases b,
    {
        b = b - 1;
    }
    proof {
        lemma_trim_start_skip(s@, a as int);
        let suf = s@.skip(a as int);
        assert(forall|k: int| b - a <= k < suf.len() ==> is_space(#[trigger] suf[k]));
        if b > a {
            assert(!is_space(suf[b - a - 1]));
        }
        lemma_trim_end_take(suf, b - a);
        assert(suf.take(b - a) =~= s@.subrange(a as int, b as int));
    }
    s.substring_char(a, b).to_owned()
}

/// The numeric value of a digit string, or zero when the text is not a
/// number or does not fit: how a best-effort reading treats a bad field.
pub open spec fn u64_of_digits_or_zero(s: Seq<char>) -> u64 {
    if s.len() >= 1 && (forall|i: int| 0 <= i < s.len() ==> crate::json::is_digit(#[trigger] s[i]))
        && crate::json::digits_value(s) <= u64::MAX {
        crate::json::digits_value(s) as u64
    } else {
        0
    }
}

proof fn lemma_digits_value_mono(s: Seq<char>, i: int, j: int)
    requires
        0 <= i <= j <= s.len(),
    ensures
        crate::json::digits_value(s.take(i)) <= crate::json::digits_value(s.take(j)),
    decreases j - i,
{
    if i < j {
        lemma_digits_value_mono(s, i, j - 1);
        let p = s.take(j - 1);
        let q = s.take(j);
        assert(q.drop_last() =~= p);
        assert(crate::json::digits_value(q)
            == crate::json::digits_value(p) * 10 + crate::json::digit_val(q.last()));
        assert(crate::json::digits_value(p) * 10 >= crate::json::digits_value(p))
            by (nonlinear_arith);
    }
}

/// Reads an unsigned number, zero when the text is not one.
#[verifier::loop_isolation(false)]
pub fn parse_u64_or_zero(s: &str) -> (r: u64)
    ensures
        r == u64_of_digits_or_zero(s@),
{
    let n = s.unicode_len();
    if n == 0 {
        return 0;
    }
    let mut acc: u64 = 0;
    let mut i: usize = 0;
    while i < n
        invariant
            0 <= i <= n,
            n == s@.len(),
            forall|k: int| 0 <= k < i ==> crate::json::is_digit(#[trigger] s@[k]),
            acc == crate::json::digits_value(s@.take(i as int)),
        decreases n - i,
    {
        let c = s.get_char(i);
        if !crate::text::char_is_digit(c) {
            return 0;
        }
        let d = crate::text::char_digit_val(c);
        proof {
            assert(s@.take(i + 1).drop_last() =~= s@.take(i as int));
            assert(s@.take(i + 1).last() == s@[i as int]);
        }
        if acc > (u64::MAX - d) / 10 {
            proof {
                assert(acc * 10 + d > u64::MAX) by (nonlinear_arith)
                    requires
                        acc > (0xffff_ffff_ffff_ffffu64 - d) / 10,
                        d < 10;
                lemma_digits_value_mono(s@, i + 1, n as int);
                assert(s@.take(n as int) =~= s@);
                assert(crate::json::digits_value(s@) > u64::MAX);
            }
            return 0;
        }
        acc = acc * 10 + d;
        i = i + 1;
    }
    proof {
        assert(s@.take(n as int) =~= s@);
    }
    acc
}

// ---------------------------------------------------------------------------
// Tool output parsing
// ---------------------------------------------------------------------------

/// What every NVIDIA device supports.
pub open spec fn nvidia_supports() -> GpuSupports {
    GpuSupports { cuda: true, rocm: false, vulkan: true, metal: false, opencl: true }
}

/// One query line from the NVIDIA tool: name, memory, driver, and compute
/// revision, comma-separated. Lines with fewer than three fields carry no
/// device.
pub open spec fn spec_smi_gpu(line: Seq<char>) -> Option<GpuV> {
    let parts = crate::text::split_text(line, ", "@);
    if parts.len() >= 3 {
        Some(GpuV {
            vendor: "nvidia"@,
            model: trim_text(parts[0]),
            vram_mb: u64_of_digits_or_zero(trim_text(parts[1])),
            compute_capability: if parts.len() >= 4 { Some(trim_text(parts[3])) } else { None },
            driver_version: trim_text(parts[2]),
            supports: nvidia_supports(),
        })
    } else {
        None
    }
}

/// The devices of a whole query output, line by line.
pub open spec fn spec_smi_gpus(lines: Seq<Seq<char>>) -> Seq<GpuV>
    decreases lines.len(),
{
    if lines.len() == 0 {
        Seq::<GpuV>::empty()
    } else {
        match spec_smi_gpu(lines[0]) {
            Option::Some(g) => seq![g] + spec_smi_gpus(lines.skip(1)),
            Option::None => spec_smi_gpus(lines.skip(1)),
        }
    }
}

/// Reads one device from one query line.
fn parse_smi_line(line: &str) -> (r: Option<GpuCapability>)
    ensures
        (match r {
            Option::Some(g) => spec_smi_gpu(line@) == Some(g@),
            Option::None => spec_smi_gpu(line@) is None,
        }),
{
    proof {
        reveal_strlit(", ");
    }
    let parts = crate::text::split_string(line, ", ");
    if parts.len() < 3 {
        proof {
            assert(crate::text::split_text(line@, ", "@).len() == strs_view(parts@).len());
        }
        return None;
    }
    proof {
        assert(strs_view(parts@)[0] == parts@[0]@);
        assert(strs_view(parts@)[1] == parts@[1]@);
        assert(strs_view(parts@)[2] == parts@[2]@);
        if parts@.len() >= 4 {
            assert(strs_view(parts@)[3] == parts@[3]@);
        }
    }
    let model = trim_str(parts[0].as_str());
    let vram = trim_str(parts[1].as_str());
    let vram_mb = parse_u64_or_zero(vram.as_str());
    let driver_version = trim_str(parts[2].as_str());
    let compute_capability: Option<String> = if parts.len() >= 4 {
        Some(trim_str(parts[3].as_str()))
    } else {
        None
    };
    Some(GpuCapability {
        vendor: String::from_str("nvidia"),
        model,
        vram_mb,
        compute_capability,
        driver_version,
        supports: GpuSupports { cuda: true, rocm: false, vulkan: true, metal: false, opencl: true },
    })
}

/// Reads the devices out of the NVIDIA tool's query output, one line each.
#[verifier::loop_isolation(false)]
pub fn parse_smi_output(out: &str) -> (gpus: Vec<GpuCapability>)
    ensures
        gpus@.map_values(|g: GpuCapability| g@)
            == spec_smi_gpus(crate::text::split_text(out@, "\n"@)),
{
    proof {
        reveal_strlit("\n");
    }
    let lines = crate::text::split_string(out, "\n");
    let ghost lv = strs_view(lines@);
    let mut gpus: Vec<GpuCapability> = Vec::new();
    let n = lines.len();
    let mut i: usize = 0;
    proof {
        assert(lv.skip(0) =~= lv);
        assert(gpus@.map_values(|g: GpuCapability| g@) + spec_smi_gpus(lv)
            =~= spec_smi_gpus(lv));
    }
    while i < n
        invariant
            0 <= i <= n,
            n == lines@.len(),
            lv == strs_view(lines@),
            gpus@.map_values(|g: GpuCapability| g@) + spec_smi_gpus(lv.skip(i as int))
                == spec_smi_gpus(lv),
        decreases n - i,
    {
        proof {
            assert(lv.skip(i as int)[0] == lv[i as int]);
            assert(lv[i as int] == lines@[i as int]@);
            assert(lv.skip(i as int).skip(1) =~= lv.skip(i + 1));
        }
        match parse_smi_line(lines[i].as_str()) {
            Option::Some(g) => {
                let ghost g0 = gpus@.map_values(|x: GpuCapability| x@);
                let ghost gv = g@;
                gpus.push(g);
                proof {
                    assert(gpus@.map_values(|x: GpuCapability| x@) =~= g0.push(gv));
                    assert(g0 + (seq![gv] + spec_smi_gpus(lv.skip(i + 1)))
                        =~= gpus@.map_values(|x: GpuCapability| x@)
                            + spec_smi_gpus(lv.skip(i + 1)));
                }
            },
            Option::None => {},
        }
        i = i + 1;
    }
    proof {
        assert(lv.skip(n as int).len() == 0);
        assert(gpus@.map_values(|g: GpuCapability| g@) + spec_smi_gpus(lv.skip(n as int))
            =~= gpus@.map_values(|g: GpuCapability| g@));
    }
    gpus
}

/// The release number inside the container tool's version banner: the text
/// after the first `version ` marker up to the next comma, trimmed. A banner
/// without the marker names no version.
pub open spec fn spec_docker_version(s: Seq<char>) -> Option<Seq<char>> {
    let parts = crate::text::split_text(s, "version "@);
    if parts.len() >= 2 {
        Some(trim_text(crate::text::split_text(parts[1], ","@)[0]))
    } else {
        None
    }
}

/// Reads the release number out of the container tool's version banner.
pub fn parse_docker_version(s: &str) -> (r: Option<String>)
    ensures
        (match r {
            Option::Some(v) => spec_docker_version(s@) == Some(v@),
            Option::None => spec_docker_version(s@) is None,
        }),
{
    proof {
        reveal_strlit("version ");
    }
    let parts = crate::text::split_string(s, "version ");
    proof {
        assert(crate::text::split_text(s@, "version "@).len() == strs_view(parts@).len());
    }
    if parts.len() < 2 {
        return None;
    }
    proof {
        assert(strs_view(parts@)[1] == parts@[1]@);
    }
    proof {
        reveal_strlit(",");
    }
    let fields = crate::text::split_string(parts[1].as_str(), ",");
    proof {
        let ghost ft = crate::text::split_text(parts@[1]@, ","@);
        assert(ft.len() == strs_view(fields@).len());
        assert(ft.len() >= 1) by {
            match crate::text::find_sub(parts@[1]@, ","@) {
                Option::Some(_) => {},
                Option::None => {},
            }
        }
        assert(strs_view(fields@)[0] == fields@[0]@);
    }
    Some(trim_str(fields[0].as_str()))
}

} // verus!
