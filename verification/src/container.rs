//! The desktop container surface: requests, listings, and the errors the
//! engine backend can report.

use vstd::prelude::*;
use crate::text::str_eq;

verus! {

/// What can go wrong talking to the engine.
pub enum ContainerError {
    RuntimeNotAvailable(String),
    NotFound(String),
    ImageNotFound(String),
    OperationFailed(String),
    DockerError(String),
    FeatureNotEnabled,
}

/// The error text each variant shows.
pub open spec fn container_error_text(e: ContainerError) -> Seq<char> {
    match e {
        ContainerError::RuntimeNotAvailable(s) => "Container runtime not available: "@ + s@,
        ContainerError::NotFound(s) => "Container not found: "@ + s@,
        ContainerError::ImageNotFound(s) => "Image not found: "@ + s@,
        ContainerError::OperationFailed(s) => "Container operation failed: "@ + s@,
        ContainerError::DockerError(s) => "Docker API error: "@ + s@,
        ContainerError::FeatureNotEnabled => "Feature not enabled"@,
    }
}

impl ContainerError {
    /// The error text shown for this failure.
    pub fn message(&self) -> (r: String)
        ensures
            r@ == container_error_text(*self),
    {
        match self {
            ContainerError::RuntimeNotAvailable(s) => {
                let mut m = String::from_str("Container runtime not available: ");
                m.append(s.as_str());
                m
            },
            ContainerError::NotFound(s) => {
                let mut m = String::from_str("Container not found: ");
                m.append(s.as_str());
                m
            },
            ContainerError::ImageNotFound(s) => {
                let mut m = String::from_str("Image not found: ");
                m.append(s.as_str());
                m
            },
            ContainerError::OperationFailed(s) => {
                let mut m = String::from_str("Container operation failed: ");
                m.append(s.as_str());
                m
            },
            ContainerError::DockerError(s) => {
                let mut m = String::from_str("Docker API error: ");
                m.append(s.as_str());
                m
            },
            ContainerError::FeatureNotEnabled => String::from_str("Feature not enabled"),
        }
    }
}

#[derive(Clone, Copy, PartialEq, Eq, Structural, Debug)]
pub enum ContainerStatus {
    Created,
    Running,
    Paused,
    Restarting,
    Removing,
    Exited,
    Dead,
    Unknown,
}

/// Lower-casing for the basic letters; other characters stay.
pub open spec fn ascii_lower_char(c: char) -> char {
    if 'A' <= c && c <= 'Z' {
        ((c as nat + 32) as char)
    } else {
        c
    }
}

pub open spec fn ascii_lower(s: Seq<char>) -> Seq<char> {
    s.map_values(|c: char| ascii_lower_char(c))
}

/// The status a state word names, compared without regard to letter case.
pub open spec fn status_of_text(s: Seq<char>) -> ContainerStatus {
    let t = ascii_lower(s);
    if t == "created"@ { ContainerStatus::Created }
    else if t == "running"@ { ContainerStatus::Running }
    else if t == "paused"@ { ContainerStatus::Paused }
    else if t == "restarting"@ { ContainerStatus::Restarting }
    else if t == "removing"@ { ContainerStatus::Removing }
    else if t == "exited"@ { ContainerStatus::Exited }
    else if t == "dead"@ { ContainerStatus::Dead }
    else { ContainerStatus::Unknown }
}

/// Lower-cases the basic letters of a state word.
#[verifier::loop_isolation(false)]
fn lower_ascii(s: &str) -> (out: String)
    ensures
        out@ == ascii_lower(s@),
{
    let n = s.unicode_len();
    let mut out = String::new();
    let mut i: usize = 0;
    proof {
        assert(out@ =~= ascii_lower(s@.take(0)));
    }
    while i < n
        invariant
            0 <= i <= n,
            out@ == ascii_lower(s@.take(i as int)),
        decreases n - i,
    {
        let c = s.get_char(i);
        let lc: char = if 'A' <= c && c <= 'Z' {
            (((c as u32) + 32) as u8) as char
        } else {
            c
        };
        proof {
            assert(lc == ascii_lower_char(c));
        }
        crate::text::push_char(&mut out, lc);
        proof {
            assert(s@.take(i + 1) =~= s@.take(i as int).push(c));
            assert(ascii_lower(s@.take(i as int)).push(ascii_lower_char(c))
                =~= ascii_lower(s@.take(i + 1)));
        }
        i = i + 1;
    }
    proof {
        assert(s@.take(n as int) =~= s@);
    }
    out
}

impl From<&str> for ContainerStatus {
    /// Reads a state word from the engine.
    fn from(s: &str) -> (r: Self) {
        let t = lower_ascii(s);
        if str_eq(t.as_str(), "created") { ContainerStatus::Created }
        else if str_eq(t.as_str(), "running") { ContainerStatus::Running }
        else if str_eq(t.as_str(), "paused") { ContainerStatus::Paused }
        else if str_eq(t.as_str(), "restarting") { ContainerStatus::Restarting }
        else if str_eq(t.as_str(), "removing") { ContainerStatus::Removing }
        else if str_eq(t.as_str(), "exited") { ContainerStatus::Exited }
        else if str_eq(t.as_str(), "dead") { ContainerStatus::Dead }
        else { ContainerStatus::Unknown }
    }
}

impl vstd::std_specs::convert::FromSpecImpl<&str> for ContainerStatus {
    open spec fn obeys_from_spec() -> bool {
        true
    }

    open spec fn from_spec(s: &str) -> Self {
        status_of_text(s@)
    }
}

pub struct PortMapping {
    pub container_port: u16,
    pub host_port: Option<u16>,
    pub protocol: String,
}

pub struct ContainerInfo {
    pub id: String,
    pub name: String,
    pub image: String,
    pub status: ContainerStatus,
    pub created: i64,
    pub ports: Vec<PortMapping>,
    pub labels: Vec<(String, String)>,
}

pub struct ImageInfo {
    pub id: String,
    pub repo_tags: Vec<String>,
    pub size: i64,
    pub created: i64,
}

pub struct CreateContainerRequest {
    pub name: String,
    pub image: String,
    pub cmd: Option<Vec<String>>,
    pub env: Option<Vec<String>>,
    pub ports: Option<Vec<PortMapping>>,
    pub volumes: Option<Vec<String>>,
    pub labels: Option<Vec<(String, String)>>,
    pub memory_limit: Option<i64>,
    pub cpu_shares: Option<i64>,
    pub gpu: Option<bool>,
}

pub struct ExecResult {
    pub exit_code: i64,
    pub stdout: String,
    pub stderr: String,
}

pub struct RuntimeInfo {
    pub available: bool,
    pub runtime_type: String,
    pub version: String,
    pub api_version: String,
    pub os: String,
    pub arch: String,
}

} // verus!
