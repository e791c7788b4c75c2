//! The executor's decisions on concrete jobs: acceptance, capacity,
//! classification, cost, and cancellation.

use rhizos_node::config::{NodeConfig, PricingConfig, ResourceLimits, NetworkConfig};
use rhizos_node::executor::{JobExecutor, ContainerOutcome, ContainerPlan, cost_cents};
use rhizos_node::json::Json;
use rhizos_node::protocol::JobData;

fn test_config(max_jobs: u32, cpu_cents: u32, cores: Option<u32>, minimum: u32) -> NodeConfig {
    NodeConfig {
        name: None,
        wallet_address: None,
        currency: String::from("USDC"),
        pricing: PricingConfig {
            gpu_hour_cents: 50,
            cpu_core_hour_cents: cpu_cents,
            memory_gb_hour_cents: 1,
            storage_gb_hour_cents: 1,
            minimum_cents: minimum,
        },
        limits: ResourceLimits {
            max_concurrent_jobs: max_jobs,
            max_memory_mb: None,
            gpu_indices: None,
            cpu_cores: cores,
            storage_quota_gb: 100,
        },
        network: NetworkConfig {
            api_port: 9876,
            public_api: false,
            allowed_orchestrators: vec![],
        },
        mcp_adapters: vec![],
        auth_token: None,
        node_id: None,
    }
}

fn docker_job(id: &str, image: &str, timeout: u64) -> JobData {
    JobData {
        id: String::from(id),
        client_id: String::from("c1"),
        payload: Json::Obj(vec![
            (String::from("type"), Json::Str(String::from("docker"))),
            (String::from("image"), Json::Str(String::from(image))),
            (String::from("command"), Json::Arr(vec![
                Json::Str(String::from("echo")),
                Json::Str(String::from("hi")),
            ])),
        ]),
        timeout_seconds: timeout,
        max_cost_cents: 100,
    }
}

#[test]
fn minimum_applies_to_short_jobs() {
    // A sub-second run bills the minimum: the hourly charge rounds to zero.
    let p = PricingConfig {
        gpu_hour_cents: 50,
        cpu_core_hour_cents: 6,
        memory_gb_hour_cents: 1,
        storage_gb_hour_cents: 1,
        minimum_cents: 10,
    };
    assert_eq!(cost_cents(900, &p, Some(2)), 10);
}

#[test]
fn cost_rounds_to_nearest_cent() {
    let p = PricingConfig {
        gpu_hour_cents: 0,
        cpu_core_hour_cents: 3600,
        memory_gb_hour_cents: 0,
        storage_gb_hour_cents: 0,
        minimum_cents: 0,
    };
    // One core at 3600 cents per hour is one cent per second.
    assert_eq!(cost_cents(1000, &p, None), 1);
    assert_eq!(cost_cents(1499, &p, None), 1);
    assert_eq!(cost_cents(1500, &p, None), 2);
    assert_eq!(cost_cents(60_000, &p, None), 60);
}

#[test]
fn happy_container_job() {
    let mut ex = JobExecutor::new(test_config(4, 6, Some(2), 10));
    let job = docker_job("j1", "busybox:latest", 30);
    let plan: ContainerPlan = ex.begin_job(&job, 0).expect("a container job is accepted");
    assert_eq!(plan.job_id, "j1");
    assert_eq!(plan.container_name, "rhizos-j1");
    assert_eq!(plan.image, "busybox:latest");
    assert_eq!(plan.command, Some(vec![String::from("echo"), String::from("hi")]));
    assert_eq!(plan.timeout_seconds, 30);
    assert_eq!(plan.memory_bytes, None);
    assert_eq!(plan.nano_cpus, Some(2_000_000_000));
    assert_eq!(ex.current_job_count(), 1);

    let r = ex.finish_job("j1", 30, &ContainerOutcome::Exited(0), 900, String::from("hi\n"));
    assert!(r.success);
    assert_eq!(r.error, None);
    assert_eq!(r.execution_time_ms, 900);
    assert_eq!(r.actual_cost_cents, 10);
    let outputs = r.outputs.expect("a successful run carries outputs");
    assert_eq!(outputs.len(), 1);
    assert_eq!(rhizos_node::json::print_json(&outputs[0]),
        "{\"type\":\"inline\",\"data\":\"hi\\n\",\"mime_type\":\"text/plain\"}");
    assert_eq!(ex.current_job_count(), 0);
    assert_eq!(ex.total_jobs_completed, 1);
    assert_eq!(ex.total_earnings_cents, 10);
}

#[test]
fn timeout_is_failure_with_exact_text() {
    let mut ex = JobExecutor::new(test_config(4, 6, None, 10));
    let job = docker_job("j2", "busybox:latest", 2);
    ex.begin_job(&job, 0).expect("accepted");
    let r = ex.finish_job("j2", 2, &ContainerOutcome::TimedOut, 2000, String::new());
    assert!(!r.success);
    assert_eq!(r.error.as_deref(), Some("Job timed out after 2 seconds"));
    assert_eq!(r.actual_cost_cents, 0);
    assert_eq!(ex.current_job_count(), 0);
    assert_eq!(ex.total_jobs_completed, 0);
}

#[test]
fn nonzero_exit_is_failure_with_logs() {
    let mut ex = JobExecutor::new(test_config(4, 6, None, 10));
    let job = docker_job("j6", "busybox:latest", 30);
    ex.begin_job(&job, 0).expect("accepted");
    let r = ex.finish_job("j6", 30, &ContainerOutcome::Exited(137), 50, String::from("killed"));
    assert!(!r.success);
    assert_eq!(r.error.as_deref(), Some("Container exited with code 137: killed"));
    assert_eq!(r.actual_cost_cents, 0);
}

#[test]
fn unknown_payload_type_fails_immediately() {
    let mut ex = JobExecutor::new(test_config(4, 6, None, 10));
    let job = JobData {
        id: String::from("j4"),
        client_id: String::from("c1"),
        payload: Json::Obj(vec![
            (String::from("type"), Json::Str(String::from("quantum"))),
        ]),
        timeout_seconds: 30,
        max_cost_cents: 100,
    };
    let r = ex.begin_job(&job, 0).expect_err("an unknown kind is refused");
    assert!(!r.success);
    assert_eq!(r.error.as_deref(), Some("Unknown job type: quantum"));
    assert_eq!(r.actual_cost_cents, 0);
    assert_eq!(ex.current_job_count(), 0);
}

#[test]
fn reserved_handlers_fail_immediately() {
    let mut ex = JobExecutor::new(test_config(4, 6, None, 10));
    let mk = |fields: Vec<(&str, Json)>| JobData {
        id: String::from("jr"),
        client_id: String::from("c1"),
        payload: Json::Obj(fields.into_iter().map(|(k, v)| (String::from(k), v)).collect()),
        timeout_seconds: 30,
        max_cost_cents: 100,
    };
    let r = ex.begin_job(&mk(vec![
        ("type", Json::Str(String::from("llm-inference"))),
        ("prompt", Json::Str(String::from("hello"))),
    ]), 0).expect_err("reserved");
    assert_eq!(r.error.as_deref(),
        Some("LLM inference not yet implemented - requires MCP adapter"));
    let r = ex.begin_job(&mk(vec![
        ("type", Json::Str(String::from("llm-inference"))),
    ]), 0).expect_err("missing prompt");
    assert_eq!(r.error.as_deref(), Some("Missing 'prompt' in LLM job payload"));
    let r = ex.begin_job(&mk(vec![
        ("type", Json::Str(String::from("image-gen"))),
    ]), 0).expect_err("reserved");
    assert_eq!(r.error.as_deref(),
        Some("Image generation not yet implemented - requires MCP adapter"));
    let r = ex.begin_job(&mk(vec![
        ("type", Json::Str(String::from("mcp"))),
        ("adapter", Json::Str(String::from("calc"))),
        ("method", Json::Str(String::from("add"))),
    ]), 0).expect_err("reserved");
    assert_eq!(r.error.as_deref(), Some("MCP adapter 'calc' not yet implemented"));
    let r = ex.begin_job(&mk(vec![
        ("type", Json::Str(String::from("docker"))),
    ]), 0).expect_err("missing image");
    assert_eq!(r.error.as_deref(), Some("Missing 'image' in docker job payload"));
}

#[test]
fn capacity_is_respected_strictly() {
    let mut ex = JobExecutor::new(test_config(1, 6, None, 10));
    assert!(ex.is_available());
    ex.begin_job(&docker_job("j1", "busybox:latest", 30), 0).expect("first job fits");
    assert!(!ex.is_available());
    assert_eq!(ex.current_job_count(), 1);
    let r = ex.begin_job(&docker_job("j9", "busybox:latest", 30), 1)
        .expect_err("the job past capacity is refused");
    assert!(!r.success);
    assert_eq!(r.error.as_deref(), Some("Node at capacity"));
    assert_eq!(ex.current_job_count(), 1);
}

#[test]
fn repeated_id_is_refused() {
    let mut ex = JobExecutor::new(test_config(4, 6, None, 10));
    ex.begin_job(&docker_job("j5", "busybox:latest", 30), 0).expect("accepted");
    let r = ex.begin_job(&docker_job("j5", "busybox:latest", 30), 1)
        .expect_err("the repeated id is refused");
    assert_eq!(r.error.as_deref(), Some("Job already running"));
    assert_eq!(ex.current_job_count(), 1);
}

#[test]
fn cancel_kills_at_most_once() {
    let mut ex = JobExecutor::new(test_config(4, 6, None, 10));
    let job = docker_job("j3", "busybox:latest", 60);
    ex.begin_job(&job, 0).expect("accepted");
    // No container yet: nothing to kill.
    assert_eq!(ex.cancel("j3"), None);
    ex.attach_container("j3", String::from("cid-1"));
    // The flag is already set, so even with a container no second signal leaves.
    assert_eq!(ex.cancel("j3"), None);

    // A fresh job with a container: exactly one kill, then silence.
    let job2 = docker_job("j7", "busybox:latest", 60);
    ex.begin_job(&job2, 0).expect("accepted");
    ex.attach_container("j7", String::from("cid-7"));
    assert_eq!(ex.cancel("j7").as_deref(), Some("cid-7"));
    assert_eq!(ex.cancel("j7"), None);
    assert_eq!(ex.cancel("no-such-job"), None);
}

#[test]
fn env_is_flattened() {
    let mut ex = JobExecutor::new(test_config(4, 6, None, 10));
    let job = JobData {
        id: String::from("j8"),
        client_id: String::from("c1"),
        payload: Json::Obj(vec![
            (String::from("image"), Json::Str(String::from("busybox:latest"))),
            (String::from("env"), Json::Obj(vec![
                (String::from("A"), Json::Str(String::from("1"))),
                (String::from("B"), Json::Str(String::from("two"))),
                (String::from("skipped"), Json::UInt(3)),
            ])),
        ]),
        timeout_seconds: 5,
        max_cost_cents: 100,
    };
    let plan = ex.begin_job(&job, 0).expect("a payload without a type tag runs a container");
    assert_eq!(plan.env, Some(vec![String::from("A=1"), String::from("B=two")]));
    assert_eq!(plan.command, None);
}

#[test]
fn counters_never_decrease() {
    let mut ex = JobExecutor::new(test_config(4, 6, None, 10));
    let mut last_completed = 0;
    let mut last_earned = 0;
    for (i, outcome) in [
        ContainerOutcome::Exited(0),
        ContainerOutcome::Exited(1),
        ContainerOutcome::TimedOut,
        ContainerOutcome::Exited(0),
    ].iter().enumerate() {
        let job = docker_job(&format!("j{i}"), "busybox:latest", 30);
        ex.begin_job(&job, 0).expect("accepted");
        ex.finish_job(&format!("j{i}"), 30, outcome, 1000, String::new());
        assert!(ex.total_jobs_completed >= last_completed);
        assert!(ex.total_earnings_cents >= last_earned);
        last_completed = ex.total_jobs_completed;
        last_earned = ex.total_earnings_cents;
    }
    assert_eq!(ex.total_jobs_completed, 2);
}
