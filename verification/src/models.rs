//! Data the desktop surface shows: hardware summaries, service status,
//! command results, and the drive listing.

use vstd::prelude::*;

verus! {

pub struct MemoryInfo {
    pub total: u64,
    pub available: u64,
}

pub struct GpuInfo {
    pub model: String,
    pub vram: Option<u64>,
    pub vendor: String,
}

pub struct StorageInfo {
    pub name: String,
    pub mount: String,
    pub total: u64,
    pub available: u64,
    pub disk_type: String,
}

pub struct NodeStatus {
    pub running: bool,
    pub connected: bool,
    pub node_id: Option<String>,
    pub share_key: Option<String>,
}

pub struct OllamaModel {
    pub name: String,
    pub size: u64,
    pub modified_at: String,
}

pub struct OllamaStatus {
    pub installed: bool,
    pub running: bool,
    pub models: Vec<OllamaModel>,
}

pub struct IpfsStats {
    pub repo_size: u64,
    pub num_objects: u64,
    pub peers: u32,
}

pub struct IpfsStatus {
    pub running: bool,
    pub has_binary: bool,
    pub peer_id: Option<String>,
    pub stats: Option<IpfsStats>,
}

/// The outcome a desktop command reports back.
pub struct CommandResult {
    pub success: bool,
    pub error: Option<String>,
}

impl CommandResult {
    /// A successful outcome carries no error.
    pub fn ok() -> (r: Self)
        ensures
            r.success == true,
            r.error is None,
    {
        CommandResult { success: true, error: None }
    }

    /// A failed outcome carries exactly the given text.
    pub fn err(msg: &str) -> (r: Self)
        ensures
            r.success == false,
            (match r.error {
                Option::Some(e) => e@ == msg@,
                Option::None => false,
            }),
    {
        CommandResult { success: false, error: Some(msg.to_owned()) }
    }
}

// ---------------------------------------------------------------------------
// Drives
// ---------------------------------------------------------------------------

/// A disk's kind, as the system library reports it.
pub enum DiskKindTag {
    Ssd,
    Hdd,
    Unknown,
}

/// One observed disk, as plain values.
pub struct DiskRecord {
    pub name: String,
    pub mount: String,
    pub total: u64,
    pub available: u64,
    pub kind: DiskKindTag,
}

/// Relies on sysinfo's Disks::new_with_refreshed_list and the per-disk
/// accessors name, mount_point, total_space, available_space and kind: one
/// record per attached disk, fields as reported. What is attached depends
/// on the machine, so nothing is promised of the values.
#[verifier::external_body]
fn probe_disks() -> Vec<DiskRecord> {
    let disks = sysinfo::Disks::new_with_refreshed_list();
    disks.iter().map(|d| DiskRecord {
        name: d.name().to_string_lossy().to_string(),
        mount: d.mount_point().to_string_lossy().to_string(),
        total: d.total_space(),
        available: d.available_space(),
        kind: match d.kind() {
            sysinfo::DiskKind::SSD => DiskKindTag::Ssd,
            sysinfo::DiskKind::HDD => DiskKindTag::Hdd,
            sysinfo::DiskKind::Unknown(_) => DiskKindTag::Unknown,
        },
    }).collect()
}

/// The label shown for a disk kind.
pub open spec fn disk_type_label(k: DiskKindTag) -> Seq<char> {
    match k {
        DiskKindTag::Ssd => "SSD"@,
        DiskKindTag::Hdd => "HDD"@,
        DiskKindTag::Unknown => "Unknown"@,
    }
}

/// Turns one observed disk into its listed form.
fn storage_info_of(r: DiskRecord) -> (s: StorageInfo)
    ensures
        s.name == r.name,
        s.mount == r.mount,
        s.total == r.total,
        s.available == r.available,
        s.disk_type@ == disk_type_label(r.kind),
{
    let disk_type = match r.kind {
        DiskKindTag::Ssd => String::from_str("SSD"),
        DiskKindTag::Hdd => String::from_str("HDD"),
        DiskKindTag::Unknown => String::from_str("Unknown"),
    };
    StorageInfo {
        name: r.name,
        mount: r.mount,
        total: r.total,
        available: r.available,
        disk_type,
    }
}

/// Turns the observed disks into the listed form, in order.
#[verifier::loop_isolation(false)]
pub fn drives_from_records(records: Vec<DiskRecord>) -> (out: Vec<StorageInfo>)
    ensures
        out@.len() == records@.len(),
        forall|i: int| 0 <= i < out@.len() ==> {
            &&& (#[trigger] out@[i]).name == records@[i].name
            &&& out@[i].mount == records@[i].mount
            &&& out@[i].total == records@[i].total
            &&& out@[i].available == records@[i].available
            &&& out@[i].disk_type@ == disk_type_label(records@[i].kind)
        },
{
    let mut out: Vec<StorageInfo> = Vec::new();
    let mut records = records;
    let n = records.len();
    let ghost rec0 = records@;
    let mut i: usize = 0;
    while i < n
        invariant
            0 <= i <= n,
            n == rec0.len(),
            records@ == rec0.skip(i as int),
            out@.len() == i,
            forall|k: int| 0 <= k < i ==> {
                &&& (#[trigger] out@[k]).name == rec0[k].name
                &&& out@[k].mount == rec0[k].mount
                &&& out@[k].total == rec0[k].total
                &&& out@[k].available == rec0[k].available
                &&& out@[k].disk_type@ == disk_type_label(rec0[k].kind)
            },
        decreases n - i,
    {
        let ghost rem = records@;
        let r = records.remove(0);
        proof {
            assert(r == rec0[i as int]);
            assert(records@ =~= rec0.skip(i + 1));
        }
        out.push(storage_info_of(r));
        i = i + 1;
    }
    out
}

/// The probe of the machine's drives.
pub struct HardwareDetector;

impl HardwareDetector {
    /// The desktop surface reports no GPUs yet: that probe is the agent's.
    pub fn get_gpu_info() -> (out: Vec<GpuInfo>)
        ensures
            out@.len() == 0,
    {
        Vec::new()
    }

    /// Lists the attached drives: each observed disk appears once, with the
    /// label its kind carries.
    pub fn get_drives() -> (out: Vec<StorageInfo>)
        ensures
            forall|i: int| 0 <= i < out@.len() ==> (#[trigger] out@[i]).disk_type@
                == "SSD"@ || out@[i].disk_type@ == "HDD"@ || out@[i].disk_type@ == "Unknown"@,
    {
        let records = probe_disks();
        let out = drives_from_records(records);
        proof {
            assert forall|i: int| 0 <= i < out@.len() implies (#[trigger] out@[i]).disk_type@
                == "SSD"@ || out@[i].disk_type@ == "HDD"@ || out@[i].disk_type@ == "Unknown"@ by {
                assert(out@[i].disk_type@ == disk_type_label(records@[i].kind));
            }
        }
        out
    }
}

} // verus!
