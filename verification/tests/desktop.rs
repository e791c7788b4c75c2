//! The desktop-facing pieces: command results, status words, runtime
//! labels, run records, model choice, share keys, and defaults.

use rhizos_node::agent::{AgentExecution, AgentStatus, cancel_agent_execution, choose_model};
use rhizos_node::api::{generate_share_key, health_response, status_snapshot};
use rhizos_node::config::NodeConfig;
use rhizos_node::container::{ContainerError, ContainerStatus};
use rhizos_node::container_runtime::{RuntimeError, RuntimeType};
use rhizos_node::models::{CommandResult, HardwareDetector, OllamaModel};

#[test]
fn command_results() {
    let ok = CommandResult::ok();
    assert!(ok.success);
    assert_eq!(ok.error, None);
    let err = CommandResult::err("Invalid path - file not found");
    assert!(!err.success);
    assert_eq!(err.error.as_deref(), Some("Invalid path - file not found"));
}

#[test]
fn container_status_words() {
    assert_eq!(ContainerStatus::from("running"), ContainerStatus::Running);
    assert_eq!(ContainerStatus::from("Running"), ContainerStatus::Running);
    assert_eq!(ContainerStatus::from("EXITED"), ContainerStatus::Exited);
    assert_eq!(ContainerStatus::from("created"), ContainerStatus::Created);
    assert_eq!(ContainerStatus::from("paused"), ContainerStatus::Paused);
    assert_eq!(ContainerStatus::from("restarting"), ContainerStatus::Restarting);
    assert_eq!(ContainerStatus::from("removing"), ContainerStatus::Removing);
    assert_eq!(ContainerStatus::from("dead"), ContainerStatus::Dead);
    assert_eq!(ContainerStatus::from("levitating"), ContainerStatus::Unknown);
}

#[test]
fn error_messages() {
    assert_eq!(ContainerError::RuntimeNotAvailable(String::from("no docker")).message(),
        "Container runtime not available: no docker");
    assert_eq!(ContainerError::FeatureNotEnabled.message(), "Feature not enabled");
    assert_eq!(RuntimeError::ImageNotFound(String::from("busybox")).message(),
        "Image not found: busybox");
}

#[test]
fn runtime_labels() {
    assert_eq!(RuntimeType::Docker.label(), "docker");
    assert_eq!(RuntimeType::Podman.label(), "podman");
    assert_eq!(RuntimeType::Native.label(), "native");
    assert_eq!(RuntimeType::Unknown.label(), "unknown");
}

#[test]
fn fresh_agent_execution() {
    let e = AgentExecution::new("ws1", "summarize the logs", "llama3.2:latest");
    assert_eq!(e.workspace_id, "ws1");
    assert_eq!(e.goal, "summarize the logs");
    assert_eq!(e.model, "llama3.2:latest");
    assert_eq!(e.agent_type, "react");
    assert_eq!(e.provider, "ollama");
    assert_eq!(e.status, AgentStatus::Pending);
    assert_eq!(e.progress, 0);
    assert_eq!(e.progress_message, "Initializing...");
    assert!(e.actions.is_empty());
    assert_eq!(e.compute_source.as_deref(), Some("local"));
    assert!(!e.id.is_empty());
}

#[test]
fn cancelling_runs() {
    let mut e = AgentExecution::new("ws1", "goal", "m");
    cancel_agent_execution(&mut e, String::from("2026-01-01T00:00:00+00:00"));
    assert_eq!(e.status, AgentStatus::Failed);
    assert_eq!(e.error.as_deref(), Some("Cancelled by user"));
    assert_eq!(e.completed_at.as_deref(), Some("2026-01-01T00:00:00+00:00"));

    let mut done = AgentExecution::new("ws1", "goal", "m");
    done.status = AgentStatus::Completed;
    cancel_agent_execution(&mut done, String::from("later"));
    assert_eq!(done.status, AgentStatus::Completed, "a finished run stays finished");
    assert_eq!(done.error, None);
}

fn models(names: &[&str]) -> Vec<OllamaModel> {
    names.iter().map(|n| OllamaModel {
        name: String::from(*n),
        size: 1,
        modified_at: String::from("now"),
    }).collect()
}

#[test]
fn model_choice() {
    let installed = models(&["mistral:7b", "llama3.2:latest", "phi3"]);
    assert_eq!(choose_model(&Some(String::from("phi3")), &installed).unwrap(), "phi3");
    assert_eq!(choose_model(&Some(String::from("auto")), &installed).unwrap(),
        "llama3.2:latest", "auto prefers a llama3 model");
    assert_eq!(choose_model(&None, &models(&["mistral:7b", "phi3"])).unwrap(), "mistral:7b");
    assert_eq!(choose_model(&None, &models(&["phi3", "gemma"])).unwrap(), "phi3");
    assert_eq!(choose_model(&None, &models(&[])).unwrap_err(),
        "No Ollama models available. Please pull a model first.");
    assert_eq!(choose_model(&Some(String::new()), &models(&["phi3"])).unwrap(), "phi3");
}

#[test]
fn share_keys() {
    let k = generate_share_key(0xdead_beef_dead_beef);
    assert_eq!(k.len(), 8);
    assert_eq!(k, generate_share_key(0xdead_beef_dead_beef), "the key is a function of the seed");
    assert_ne!(k, generate_share_key(1));
    for c in k.chars() {
        assert!("ABCDEFGHJKLMNPQRSTUVWXYZ23456789".contains(c));
    }
    assert_eq!(generate_share_key(0), "AAAAAAAA");
}

#[test]
fn health_and_status() {
    let h = health_response("0.1.0", "local");
    assert_eq!(h.status, "healthy");
    assert_eq!(h.version, "0.1.0");
    let s = status_snapshot(true, Some(String::from("https://o.example")), 2, 10, 120, 3600);
    assert!(s.connected);
    assert_eq!(s.current_jobs, 2);
    assert_eq!(s.total_jobs_completed, 10);
    assert_eq!(s.total_earnings_cents, 120);
    assert_eq!(s.uptime_seconds, 3600);
}

#[test]
fn drives_report_known_kinds() {
    for d in HardwareDetector::get_drives() {
        assert!(d.disk_type == "SSD" || d.disk_type == "HDD" || d.disk_type == "Unknown");
    }
}

#[test]
fn default_configuration() {
    let c = NodeConfig::default();
    assert_eq!(c.currency, "USDC");
    assert_eq!(c.pricing.gpu_hour_cents, 50);
    assert_eq!(c.pricing.cpu_core_hour_cents, 5);
    assert_eq!(c.pricing.minimum_cents, 10);
    assert_eq!(c.limits.max_concurrent_jobs, 4);
    assert_eq!(c.limits.storage_quota_gb, 100);
    assert_eq!(c.network.api_port, 9876);
    assert!(!c.network.public_api);
    assert_eq!(c.mcp_adapters, vec![String::from("docker"), String::from("llm-inference")]);
}
