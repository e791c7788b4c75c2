//! Local assistant runs: their records, the model choice, and the state
//! transitions a run goes through.

use vstd::prelude::*;
use crate::models::OllamaModel;
use crate::text::{str_eq, str_contains, contains_seq};

verus! {

pub struct AgentAction {
    pub thought: String,
    pub tool: Option<String>,
    pub input: Option<String>,
    pub output: Option<String>,
}

#[derive(Clone, Copy, PartialEq, Eq, Structural, Debug)]
pub enum AgentStatus {
    Pending,
    Running,
    Completed,
    Failed,
    Blocked,
    PullingModel,
}

pub struct AgentExecution {
    pub id: String,
    pub workspace_id: String,
    pub goal: String,
    pub agent_type: String,
    pub model: String,
    pub provider: String,
    pub status: AgentStatus,
    pub progress: u8,
    pub progress_message: String,
    pub actions: Vec<AgentAction>,
    pub result: Option<String>,
    pub error: Option<String>,
    pub security_alerts: Option<Vec<String>>,
    pub tokens_used: u32,
    pub iterations: u32,
    pub created_at: String,
    pub completed_at: Option<String>,
    pub compute_source: Option<String>,
    pub task_category: Option<String>,
    pub sandbox_cid: Option<String>,
}

pub struct CreateAgentRequest {
    pub goal: String,
    pub model: Option<String>,
    pub agent_type: Option<String>,
}

/// Relies on uuid's Uuid::new_v4 and its hyphenated rendering: a fresh
/// random identifier. The value depends on the generator, so nothing is
/// promised of it; if the system's randomness source fails, the call
/// aborts the process, as running out of memory would.
#[verifier::external_body]
fn fresh_uuid() -> String {
    uuid::Uuid::new_v4().to_string()
}

/// Relies on chrono's Utc::now and DateTime::to_rfc3339: the current wall
/// time rendered. The value depends on the clock, so nothing is promised;
/// on a clock set before the epoch the call aborts the process.
#[verifier::external_body]
fn now_rfc3339() -> String {
    chrono::Utc::now().to_rfc3339()
}

impl AgentExecution {
    /// A fresh run record: pending, no progress, no actions yet, a fresh
    /// identifier and the current time.
    pub fn new(workspace_id: &str, goal: &str, model: &str) -> (e: Self)
        ensures
            e.workspace_id@ == workspace_id@,
            e.goal@ == goal@,
            e.model@ == model@,
            e.agent_type@ == "react"@,
            e.provider@ == "ollama"@,
            e.status == AgentStatus::Pending,
            e.progress == 0,
            e.progress_message@ == "Initializing..."@,
            e.actions@.len() == 0,
            e.result is None,
            e.error is None,
            e.security_alerts is None,
            e.tokens_used == 0,
            e.iterations == 0,
            e.completed_at is None,
            (match e.compute_source {
                Option::Some(c) => c@ == "local"@,
                Option::None => false,
            }),
            e.task_category is None,
            e.sandbox_cid is None,
    {
        AgentExecution {
            id: fresh_uuid(),
            workspace_id: workspace_id.to_owned(),
            goal: goal.to_owned(),
            agent_type: String::from_str("react"),
            model: model.to_owned(),
            provider: String::from_str("ollama"),
            status: AgentStatus::Pending,
            progress: 0,
            progress_message: String::from_str("Initializing..."),
            actions: Vec::new(),
            result: None,
            error: None,
            security_alerts: None,
            tokens_used: 0,
            iterations: 0,
            created_at: now_rfc3339(),
            completed_at: None,
            compute_source: Some(String::from_str("local")),
            task_category: None,
            sandbox_cid: None,
        }
    }
}

// ---------------------------------------------------------------------------
// Model choice
// ---------------------------------------------------------------------------

/// The first model name containing the marker, if any.
pub open spec fn first_containing(names: Seq<Seq<char>>, marker: Seq<char>) -> Option<Seq<char>>
    decreases names.len(),
{
    if names.len() == 0 {
        None
    } else if contains_seq(names[0], marker) {
        Some(names[0])
    } else {
        first_containing(names.skip(1), marker)
    }
}

/// Which model a run uses: an explicit request that is neither empty nor
/// `auto` wins; otherwise the first installed model whose name mentions
/// `llama3`, then `mistral`, then the first installed model; with nothing
/// installed the request fails with the exact error text.
pub open spec fn spec_choose_model(req: Option<Seq<char>>, names: Seq<Seq<char>>)
    -> Result<Seq<char>, Seq<char>> {
    match req {
        Option::Some(r) if r.len() > 0 && r != "auto"@ => Ok(r),
        _ => {
            if names.len() == 0 {
                Err("No Ollama models available. Please pull a model first."@)
            } else {
                match first_containing(names, "llama3"@) {
                    Option::Some(m) => Ok(m),
                    Option::None => match first_containing(names, "mistral"@) {
                        Option::Some(m) => Ok(m),
                        Option::None => Ok(names[0]),
                    },
                }
            }
        },
    }
}

pub open spec fn model_names(models: Seq<OllamaModel>) -> Seq<Seq<char>> {
    models.map_values(|m: OllamaModel| m.name@)
}

/// Finds the first installed model whose name mentions the marker.
#[verifier::loop_isolation(false)]
fn find_model_containing(models: &Vec<OllamaModel>, marker: &str) -> (r: Option<String>)
    ensures
        (match r {
            Option::Some(m) => first_containing(model_names(models@), marker@) == Some(m@),
            Option::None => first_containing(model_names(models@), marker@) is None,
        }),
{
    let ghost names = model_names(models@);
    let n = models.len();
    let mut i: usize = 0;
    proof {
        assert(names.skip(0) =~= names);
    }
    while i < n
        invariant
            0 <= i <= n,
            n == names.len(),
            first_containing(names, marker@) == first_containing(names.skip(i as int), marker@),
        decreases n - i,
    {
        proof {
            assert(names.skip(i as int)[0] == names[i as int]);
            assert(names[i as int] == models@[i as int].name@);
            assert(names.skip(i as int).skip(1) =~= names.skip(i + 1));
        }
        if str_contains(models[i].name.as_str(), marker) {
            return Some(models[i].name.clone());
        }
        i = i + 1;
    }
    proof {
        assert(names.skip(n as int).len() == 0);
    }
    None
}

/// Chooses the model one run uses.
pub fn choose_model(req: &Option<String>, models: &Vec<OllamaModel>) -> (r: Result<String, String>)
    ensures
        (match r {
            Result::Ok(m) => spec_choose_model(crate::hardware::opt_view(*req),
                model_names(models@)) == Ok::<Seq<char>, Seq<char>>(m@),
            Result::Err(e) => spec_choose_model(crate::hardware::opt_view(*req),
                model_names(models@)) == Err::<Seq<char>, Seq<char>>(e@),
        }),
{
    let ghost names = model_names(models@);
    match req {
        Option::Some(r) if r.unicode_len() > 0 && !str_eq(r.as_str(), "auto") => Ok(r.clone()),
        _ => {
            if models.len() == 0 {
                Err(String::from_str("No Ollama models available. Please pull a model first."))
            } else {
                match find_model_containing(models, "llama3") {
                    Option::Some(m) => Ok(m),
                    Option::None => match find_model_containing(models, "mistral") {
                        Option::Some(m) => Ok(m),
                        Option::None => {
                            proof {
                                assert(names[0] == models@[0].name@);
                            }
                            Ok(models[0].name.clone())
                        },
                    },
                }
            }
        },
    }
}

/// Cancels a run: a pending or running record fails with the exact text and
/// the given completion time; a finished record stays as it is.
pub fn cancel_agent_execution(e: &mut AgentExecution, completed_at: String)
    ensures
        (old(e).status == AgentStatus::Running || old(e).status == AgentStatus::Pending) ==> {
            &&& final(e).status == AgentStatus::Failed
            &&& (match final(e).error {
                Option::Some(msg) => msg@ == "Cancelled by user"@,
                Option::None => false,
            })
            &&& (match final(e).completed_at {
                Option::Some(t) => t == completed_at,
                Option::None => false,
            })
            &&& final(e).id == old(e).id
            &&& final(e).goal == old(e).goal
            &&& final(e).model == old(e).model
            &&& final(e).tokens_used == old(e).tokens_used
        },
        !(old(e).status == AgentStatus::Running || old(e).status == AgentStatus::Pending)
            ==> *final(e) == *old(e),
{
    if e.status == AgentStatus::Running || e.status == AgentStatus::Pending {
        e.status = AgentStatus::Failed;
        e.error = Some(String::from_str("Cancelled by user"));
        e.completed_at = Some(completed_at);
    }
}

} // verus!
