//! The engine-neutral container port: the states, descriptions and results
//! a backend reports, whichever engine stands behind it.

use vstd::prelude::*;

verus! {

/// What can go wrong in a backend.
pub enum RuntimeError {
    NotAvailable(String),
    ContainerNotFound(String),
    ImageNotFound(String),
    OperationFailed(String),
    Io(String),
    Config(String),
}

/// The error text each variant shows.
pub open spec fn runtime_error_text(e: RuntimeError) -> Seq<char> {
    match e {
        RuntimeError::NotAvailable(s) => "Runtime not available: "@ + s@,
        RuntimeError::ContainerNotFound(s) => "Container not found: "@ + s@,
        RuntimeError::ImageNotFound(s) => "Image not found: "@ + s@,
        RuntimeError::OperationFailed(s) => "Operation failed: "@ + s@,
        RuntimeError::Io(s) => "IO error: "@ + s@,
        RuntimeError::Config(s) => "Configuration error: "@ + s@,
    }
}

impl RuntimeError {
    /// The error text shown for this failure.
    pub fn message(&self) -> (r: String)
        ensures
            r@ == runtime_error_text(*self),
    {
        match self {
            RuntimeError::NotAvailable(s) => {
                let mut m = String::from_str("Runtime not available: ");
                m.append(s.as_str());
                m
            },
            RuntimeError::ContainerNotFound(s) => {
                let mut m = String::from_str("Container not found: ");
                m.append(s.as_str());
                m
            },
            RuntimeError::ImageNotFound(s) => {
                let mut m = String::from_str("Image not found: ");
                m.append(s.as_str());
                m
            },
            RuntimeError::OperationFailed(s) => {
                let mut m = String::from_str("Operation failed: ");
                m.append(s.as_str());
                m
            },
            RuntimeError::Io(s) => {
                let mut m = String::from_str("IO error: ");
                m.append(s.as_str());
                m
            },
            RuntimeError::Config(s) => {
                let mut m = String::from_str("Configuration error: ");
                m.append(s.as_str());
                m
            },
        }
    }
}

#[derive(Clone, Copy, PartialEq, Eq, Structural, Debug)]
pub enum RuntimeType {
    Docker,
    Podman,
    Native,
    Unknown,
}

/// The lower-case name of each backend.
pub open spec fn runtime_type_label(t: RuntimeType) -> Seq<char> {
    match t {
        RuntimeType::Docker => "docker"@,
        RuntimeType::Podman => "podman"@,
        RuntimeType::Native => "native"@,
        RuntimeType::Unknown => "unknown"@,
    }
}

impl RuntimeType {
    /// The backend's name as shown.
    pub fn label(&self) -> (r: String)
        ensures
            r@ == runtime_type_label(*self),
    {
        match self {
            RuntimeType::Docker => String::from_str("docker"),
            RuntimeType::Podman => String::from_str("podman"),
            RuntimeType::Native => String::from_str("native"),
            RuntimeType::Unknown => String::from_str("unknown"),
        }
    }
}

#[derive(Clone, Copy, PartialEq, Eq, Structural, Debug)]
pub enum ContainerState {
    Creating,
    Created,
    Running,
    Paused,
    Stopped,
    Exited,
    Dead,
    Unknown,
}

pub struct PortMapping {
    pub host_port: u16,
    pub container_port: u16,
    pub protocol: String,
    pub host_ip: Option<String>,
}

pub enum MountType {
    Bind,
    Volume,
    Tmpfs,
}

pub struct Mount {
    pub source: String,
    pub target: String,
    pub mount_type: MountType,
    pub readonly: bool,
}

pub struct ContainerInfo {
    pub id: String,
    pub name: String,
    pub image: String,
    pub state: ContainerState,
    pub created: i64,
    pub started: Option<i64>,
    pub finished: Option<i64>,
    pub exit_code: Option<i32>,
    pub pid: Option<u32>,
    pub ports: Vec<PortMapping>,
    pub mounts: Vec<Mount>,
    pub labels: Vec<(String, String)>,
}

pub struct ImageInfo {
    pub id: String,
    pub repo_tags: Vec<String>,
    pub repo_digests: Vec<String>,
    pub size: i64,
    pub created: i64,
}

pub struct ExecOutput {
    pub exit_code: i32,
    pub stdout: String,
    pub stderr: String,
}

pub struct RuntimeInfo {
    pub runtime_type: RuntimeType,
    pub version: String,
    pub api_version: Option<String>,
    pub os: String,
    pub arch: String,
    pub root_dir: Option<String>,
    pub cgroup_driver: Option<String>,
}

} // verus!
