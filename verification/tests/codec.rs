//! The wire codec on concrete frames: printing, parsing, and the round
//! trip of the capabilities snapshot.

use rhizos_node::json::{Json, print_json, parse_json};
use rhizos_node::hardware::{NodeCapabilities, CpuCapability, MemoryCapability,
    StorageCapability, GpuCapability, GpuSupports, CpuArchitecture, StorageType};
use rhizos_node::protocol::{caps_to_json, caps_from_json, encode_node_message, NodeMessage,
    JobStatusUpdate, JobResultData, decode_orchestrator_frame, OrchestratorMessage,
    job_status_frame, job_result_frame};

fn sample_caps() -> NodeCapabilities {
    NodeCapabilities {
        node_id: String::from("3f2a"),
        node_version: String::from("0.1.0"),
        gpus: vec![GpuCapability {
            vendor: String::from("nvidia"),
            model: String::from("RTX 3060"),
            vram_mb: 12288,
            compute_capability: Some(String::from("8.6")),
            driver_version: String::from("535.54"),
            supports: GpuSupports { cuda: true, rocm: false, vulkan: true, metal: false, opencl: true },
        }],
        cpu: CpuCapability {
            vendor: String::from("GenuineIntel"),
            model: String::from("i7-9700K"),
            cores: 8,
            threads: 8,
            frequency_mhz: 3600,
            architecture: CpuArchitecture::X86_64,
            features: vec![String::from("avx"), String::from("avx2")],
        },
        memory: MemoryCapability { total_mb: 32768, available_mb: 20480 },
        storage: StorageCapability { total_gb: 931, available_gb: 400, storage_type: StorageType::Nvme },
        docker_version: Some(String::from("24.0.5")),
        container_runtimes: vec![String::from("docker")],
        mcp_adapters: vec![],
    }
}

#[test]
fn print_simple_values() {
    assert_eq!(print_json(&Json::Null), "null");
    assert_eq!(print_json(&Json::Bool(true)), "true");
    assert_eq!(print_json(&Json::Bool(false)), "false");
    assert_eq!(print_json(&Json::UInt(0)), "0");
    assert_eq!(print_json(&Json::UInt(18446744073709551615)), "18446744073709551615");
    assert_eq!(print_json(&Json::Str(String::from("hi"))), "\"hi\"");
}

#[test]
fn print_escapes() {
    let v = Json::Str(String::from("a\"b\\c\nd\re\tf"));
    assert_eq!(print_json(&v), "\"a\\\"b\\\\c\\nd\\re\\tf\"");
}

#[test]
fn print_nested() {
    let v = Json::Obj(vec![
        (String::from("xs"), Json::Arr(vec![Json::UInt(1), Json::UInt(2)])),
        (String::from("ok"), Json::Bool(true)),
    ]);
    assert_eq!(print_json(&v), "{\"xs\":[1,2],\"ok\":true}");
}

#[test]
fn parse_roundtrip_values() {
    let cases = vec![
        "null", "true", "false", "0", "42", "\"hi\"", "[]", "{}",
        "[1,2,3]", "{\"a\":1}", "{\"a\":[{\"b\":\"c\\nd\"}],\"e\":null}",
    ];
    for c in cases {
        let parsed = parse_json(c).expect("frame should parse");
        assert_eq!(print_json(&parsed), c);
    }
}

#[test]
fn parse_rejects_malformed() {
    for bad in ["", "tru", "[1,", "{\"a\"}", "\"unterminated", "01x", "[1 2]",
        "\"\\q\"", "\"\\ud800 alone\"", "{\"a\" 1}"] {
        assert!(parse_json(bad).is_none(), "{bad:?} should be refused");
    }
}

#[test]
fn parse_tolerates_whitespace() {
    let parsed = parse_json(" {\n  \"a\" : [ 1 ,\t2 ] ,\r\n \"b\" : null }  ")
        .expect("a spaced frame still parses");
    assert_eq!(print_json(&parsed), "{\"a\":[1,2],\"b\":null}");
}

#[test]
fn parse_standard_escapes() {
    let parsed = parse_json("\"\\u0041\\b\\f\\/\\u00e9\"").expect("escapes decode");
    match parsed {
        Json::Str(s) => assert_eq!(s, "A\u{0008}\u{000c}/\u{00e9}"),
        _ => panic!("a string was encoded"),
    }
    let parsed = parse_json("\"\\ud83d\\ude00\"").expect("surrogate pairs decode");
    match parsed {
        Json::Str(s) => assert_eq!(s, "\u{1f600}"),
        _ => panic!("a string was encoded"),
    }
}

#[test]
fn control_characters_are_escaped() {
    let v = Json::Str(String::from("a\u{001b}[31mred\u{0000}"));
    let frame = print_json(&v);
    assert_eq!(frame, "\"a\\u001b[31mred\\u0000\"");
    match parse_json(&frame).expect("the escaped frame parses back") {
        Json::Str(s) => assert_eq!(s, "a\u{001b}[31mred\u{0000}"),
        _ => panic!("a string was encoded"),
    }
}

#[test]
fn unusable_numbers_are_kept_as_text() {
    for lex in ["-1", "3.5", "1e9", "-2.5E-3", "18446744073709551616"] {
        match parse_json(lex).expect("the number token parses") {
            Json::Num(kept) => assert_eq!(kept, lex),
            other => panic!("{lex} should be kept as text, got {other:?}"),
        }
    }
    match parse_json("42").expect("a plain integer parses") {
        Json::UInt(n) => assert_eq!(n, 42),
        _ => panic!("a plain integer is usable"),
    }
}

#[test]
fn assignment_with_odd_payload_still_decodes() {
    let frame = "{\"type\": \"job_assignment\", \"job\": {\"id\": \"j9\", \
        \"client_id\": \"c1\", \"payload\": {\"type\": \"docker\", \
        \"image\": \"busybox:latest\", \"priority\": -1, \"scale\": 0.5}, \
        \"timeout_seconds\": 30, \"max_cost_cents\": 100}}";
    match decode_orchestrator_frame(frame) {
        Some(OrchestratorMessage::JobAssignment { job }) => {
            assert_eq!(job.id, "j9");
            assert_eq!(job.timeout_seconds, 30);
        },
        _ => panic!("the frame carries a job the node can run"),
    }
}

#[test]
fn capabilities_round_trip_bit_for_bit() {
    let caps = sample_caps();
    let frame = print_json(&caps_to_json(&caps));
    let parsed = parse_json(&frame).expect("capabilities frame should parse");
    let back = caps_from_json(&parsed).expect("capabilities should decode");
    assert_eq!(back.node_id, caps.node_id);
    assert_eq!(back.node_version, caps.node_version);
    assert_eq!(back.cpu.vendor, caps.cpu.vendor);
    assert_eq!(back.cpu.model, caps.cpu.model);
    assert_eq!(back.cpu.cores, caps.cpu.cores);
    assert_eq!(back.cpu.threads, caps.cpu.threads);
    assert_eq!(back.cpu.frequency_mhz, caps.cpu.frequency_mhz);
    assert_eq!(back.cpu.architecture, caps.cpu.architecture);
    assert_eq!(back.cpu.features, caps.cpu.features);
    assert_eq!(back.memory, caps.memory);
    assert_eq!(back.storage, caps.storage);
    assert_eq!(back.gpus.len(), caps.gpus.len());
    assert_eq!(back.gpus[0].vendor, caps.gpus[0].vendor);
    assert_eq!(back.gpus[0].model, caps.gpus[0].model);
    assert_eq!(back.gpus[0].vram_mb, caps.gpus[0].vram_mb);
    assert_eq!(back.gpus[0].compute_capability, caps.gpus[0].compute_capability);
    assert_eq!(back.gpus[0].driver_version, caps.gpus[0].driver_version);
    assert_eq!(back.gpus[0].supports, caps.gpus[0].supports);
    assert_eq!(back.docker_version, caps.docker_version);
    assert_eq!(back.container_runtimes, caps.container_runtimes);
    assert_eq!(back.mcp_adapters, caps.mcp_adapters);
}

#[test]
fn heartbeat_frame_text() {
    let m = NodeMessage::Heartbeat { available: true, current_jobs: 2 };
    assert_eq!(encode_node_message(&m),
        "{\"type\":\"heartbeat\",\"available\":true,\"current_jobs\":2}");
}

#[test]
fn job_status_frame_text() {
    assert_eq!(job_status_frame("j1", JobStatusUpdate::Accepted),
        "{\"type\":\"job_status\",\"job_id\":\"j1\",\"status\":\"accepted\"}");
    assert_eq!(job_status_frame("j1", JobStatusUpdate::Failed { error: String::from("boom") }),
        "{\"type\":\"job_status\",\"job_id\":\"j1\",\"status\":{\"failed\":{\"error\":\"boom\"}}}");
}

#[test]
fn job_result_frame_text() {
    let r = JobResultData {
        success: false,
        outputs: None,
        error: Some(String::from("Unknown job type: quantum")),
        execution_time_ms: 0,
        actual_cost_cents: 0,
    };
    assert_eq!(job_result_frame("j4", r),
        "{\"type\":\"job_result\",\"job_id\":\"j4\",\"result\":{\"success\":false,\
        \"outputs\":null,\"error\":\"Unknown job type: quantum\",\
        \"execution_time_ms\":0,\"actual_cost_cents\":0}}");
}

#[test]
fn decode_inbound_frames() {
    match decode_orchestrator_frame("{\"type\":\"registered\",\"node_id\":\"n7\"}") {
        Some(OrchestratorMessage::Registered { node_id }) => assert_eq!(node_id, "n7"),
        _ => panic!("registered frame should decode"),
    }
    match decode_orchestrator_frame("{\"type\":\"cancel_job\",\"job_id\":\"j3\"}") {
        Some(OrchestratorMessage::CancelJob { job_id }) => assert_eq!(job_id, "j3"),
        _ => panic!("cancel frame should decode"),
    }
    match decode_orchestrator_frame(
        "{\"type\":\"job_assignment\",\"job\":{\"id\":\"j1\",\"client_id\":\"c1\",\
        \"payload\":{\"type\":\"docker\",\"image\":\"busybox:latest\"},\
        \"timeout_seconds\":30,\"max_cost_cents\":100}}") {
        Some(OrchestratorMessage::JobAssignment { job }) => {
            assert_eq!(job.id, "j1");
            assert_eq!(job.client_id, "c1");
            assert_eq!(job.timeout_seconds, 30);
            assert_eq!(job.max_cost_cents, 100);
        },
        _ => panic!("assignment frame should decode"),
    }
    match decode_orchestrator_frame("{\"type\":\"error\",\"code\":\"auth_invalid\",\
        \"message\":\"bad token\"}") {
        Some(OrchestratorMessage::Error { code, message }) => {
            assert_eq!(code, "auth_invalid");
            assert_eq!(message, "bad token");
        },
        _ => panic!("error frame should decode"),
    }
    assert!(decode_orchestrator_frame("{\"type\":\"sideband\"}").is_none());
    assert!(decode_orchestrator_frame("not json").is_none());
}
