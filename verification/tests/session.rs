//! The session on concrete frames: registration, heartbeats, assignment
//! handling, cancellation, fatal errors, and reconnects.

use rhizos_node::config::NodeConfig;
use rhizos_node::hardware::{NodeCapabilities, CpuCapability, MemoryCapability,
    StorageCapability, CpuArchitecture, StorageType};
use rhizos_node::session::{NodeConnection, SessionAction};
use rhizos_node::{REGISTRATION_DEADLINE_MS, RECONNECT_DELAY_MS, HEARTBEAT_INTERVAL_MS};

fn small_caps() -> NodeCapabilities {
    NodeCapabilities {
        node_id: String::from("node-a"),
        node_version: String::from("0.1.0"),
        gpus: vec![],
        cpu: CpuCapability {
            vendor: String::from("v"),
            model: String::from("m"),
            cores: 4,
            threads: 8,
            frequency_mhz: 3000,
            architecture: CpuArchitecture::X86_64,
            features: vec![],
        },
        memory: MemoryCapability { total_mb: 8192, available_mb: 4096 },
        storage: StorageCapability { total_gb: 100, available_gb: 50, storage_type: StorageType::Ssd },
        docker_version: None,
        container_runtimes: vec![String::from("docker")],
        mcp_adapters: vec![],
    }
}

fn connect(url: &str) -> NodeConnection {
    NodeConnection::new(url, small_caps(), NodeConfig::default())
}

fn assignment_frame(id: &str, sleep: &str, timeout: u64) -> String {
    format!(
        "{{\"type\":\"job_assignment\",\"job\":{{\"id\":\"{id}\",\"client_id\":\"c1\",\
        \"payload\":{{\"type\":\"docker\",\"image\":\"busybox:latest\",\
        \"command\":[\"sleep\",\"{sleep}\"]}},\"timeout_seconds\":{timeout},\
        \"max_cost_cents\":100}}}}"
    )
}

#[test]
fn protocol_constants() {
    assert_eq!(HEARTBEAT_INTERVAL_MS, 30_000);
    assert_eq!(RECONNECT_DELAY_MS, 5_000);
    assert_eq!(REGISTRATION_DEADLINE_MS, 30_000);
}

#[test]
fn ws_url_substitutes_the_scheme() {
    assert_eq!(connect("https://orchestrator.rhizos.cloud").ws_url(),
        "wss://orchestrator.rhizos.cloud/ws/node");
    assert_eq!(connect("http://localhost:8080").ws_url(),
        "ws://localhost:8080/ws/node");
    assert_eq!(connect("wss://already").ws_url(), "wss://already/ws/node");
}

#[test]
fn register_frame_carries_the_snapshot() {
    let s = connect("https://o.example");
    let frame = s.register_frame();
    let v = rhizos_node::json::parse_json(&frame).expect("the register frame is a frame");
    match rhizos_node::protocol::obj_get(&v, "type") {
        Some(rhizos_node::json::Json::Str(t)) => assert_eq!(t, "register"),
        _ => panic!("a type tag is required"),
    }
    let caps_v = rhizos_node::protocol::obj_get(&v, "capabilities")
        .expect("the snapshot is in the frame");
    let caps = rhizos_node::protocol::caps_from_json(caps_v).expect("the snapshot decodes");
    assert_eq!(caps.node_id, "node-a");
    assert_eq!(caps.cpu.threads, 8);
    match rhizos_node::protocol::obj_get(&v, "auth_token") {
        Some(rhizos_node::json::Json::Null) => {},
        _ => panic!("without a stored token the field is null"),
    }
}

#[test]
fn heartbeat_reports_the_table_size() {
    let mut s = connect("https://o.example");
    assert_eq!(s.heartbeat_frame(),
        "{\"type\":\"heartbeat\",\"available\":true,\"current_jobs\":0}");
    s.handle_frame("{\"type\":\"registered\",\"node_id\":\"n1\"}", 0);
    s.handle_frame(&assignment_frame("j1", "5", 30), 10);
    assert_eq!(s.heartbeat_frame(),
        "{\"type\":\"heartbeat\",\"available\":true,\"current_jobs\":1}");
}

#[test]
fn assignment_is_acknowledged_then_started() {
    let mut s = connect("https://o.example");
    s.handle_frame("{\"type\":\"registered\",\"node_id\":\"n1\"}", 0);
    let acts = s.handle_frame(&assignment_frame("j1", "5", 30), 10);
    assert_eq!(acts.len(), 2);
    match &acts[0] {
        SessionAction::SendFrame(f) => assert_eq!(f,
            "{\"type\":\"job_status\",\"job_id\":\"j1\",\"status\":\"accepted\"}"),
        _ => panic!("the acknowledgement comes first"),
    }
    match &acts[1] {
        SessionAction::StartContainerJob(plan) => {
            assert_eq!(plan.container_name, "rhizos-j1");
            assert_eq!(plan.image, "busybox:latest");
        },
        _ => panic!("the plan follows the acknowledgement"),
    }
}

#[test]
fn assignment_before_registration_is_buffered() {
    let mut s = connect("https://o.example");
    let acts = s.handle_frame(&assignment_frame("j5", "5", 30), 0);
    assert!(acts.is_empty(), "nothing is acknowledged before registration");
    let acts = s.handle_frame("{\"type\":\"registered\",\"node_id\":\"n1\"}", 1);
    assert_eq!(acts.len(), 1);
    match &acts[0] {
        SessionAction::RunAssignment(job) => assert_eq!(job.id, "j5"),
        _ => panic!("the buffered assignment comes back"),
    }
}

#[test]
fn cancel_job_kills_the_container_once() {
    let mut s = connect("https://o.example");
    s.handle_frame("{\"type\":\"registered\",\"node_id\":\"n1\"}", 0);
    s.handle_frame(&assignment_frame("j3", "60", 60), 0);
    s.executor.attach_container("j3", String::from("cid-3"));
    let acts = s.handle_frame("{\"type\":\"cancel_job\",\"job_id\":\"j3\"}", 1000);
    assert_eq!(acts.len(), 1);
    match &acts[0] {
        SessionAction::KillContainer(c) => assert_eq!(c, "cid-3"),
        _ => panic!("the first cancel kills"),
    }
    let acts = s.handle_frame("{\"type\":\"cancel_job\",\"job_id\":\"j3\"}", 1001);
    assert!(acts.is_empty(), "a repeated cancel kills nothing");
}

#[test]
fn fatal_error_codes_shut_the_agent_down() {
    let mut s = connect("https://o.example");
    let acts = s.handle_frame(
        "{\"type\":\"error\",\"code\":\"auth_invalid\",\"message\":\"x\"}", 0);
    assert!(matches!(acts.as_slice(), [SessionAction::Shutdown]));
    let acts = s.handle_frame(
        "{\"type\":\"error\",\"code\":\"registration_rejected\",\"message\":\"x\"}", 0);
    assert!(matches!(acts.as_slice(), [SessionAction::Shutdown]));
    let acts = s.handle_frame(
        "{\"type\":\"error\",\"code\":\"rate_limited\",\"message\":\"x\"}", 0);
    assert!(acts.is_empty(), "other codes are logged and survived");
}

#[test]
fn malformed_frames_are_dropped() {
    let mut s = connect("https://o.example");
    assert!(s.handle_frame("{oops", 0).is_empty());
    assert!(s.handle_frame("{\"type\":\"config_update\",\"config\":{}}", 0).is_empty());
}

#[test]
fn registration_deadline() {
    let mut s = connect("https://o.example");
    assert!(!s.registration_overdue(29_999));
    assert!(s.registration_overdue(30_000));
    s.handle_frame("{\"type\":\"registered\",\"node_id\":\"n1\"}", 0);
    assert!(!s.registration_overdue(60_000));
}

#[test]
fn reconnect_reissues_the_same_register_frame() {
    let mut s = connect("https://o.example");
    s.handle_frame("{\"type\":\"registered\",\"node_id\":\"n1\"}", 0);
    s.handle_frame(&assignment_frame("j5", "5", 30), 10);
    let first = s.register_frame();
    let jobs_before = s.executor.current_job_count();
    s.on_disconnect();
    assert_eq!(s.register_frame(), first, "the reissued frame is identical");
    assert_eq!(s.executor.current_job_count(), jobs_before,
        "jobs in flight survive the outage");
    assert_eq!(s.executor.total_jobs_completed, 0);
}
