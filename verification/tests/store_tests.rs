use agent_studio::AgentSession;
use agent_studio::AgentStep;
use agent_studio::DomainKnowledge;
use agent_studio::SessionStore;
use agent_studio::Skill;
use agent_studio::StepName;
use agent_studio::StepStatus;

fn mk_session(id: &str, title: Option<&str>, status: Option<&str>, created: &str) -> AgentSession {
    AgentSession {
        session_id: id.to_string(),
        task_title: title.map(|t| t.to_string()),
        status: status.map(|s| s.to_string()),
        steps: Vec::new(),
        created_at: created.to_string(),
        updated_at: created.to_string(),
    }
}

#[test]
fn get_on_empty_store_is_not_found() {
    let store = SessionStore::new();
    assert!(store.get(&"s1".to_string()).is_none());
}

#[test]
fn upsert_then_get_returns_the_record() {
    let mut store = SessionStore::new();
    store.upsert(mk_session("s1", None, None, "2024-01-01T00:00:00Z"));
    let got = store.get(&"s1".to_string()).expect("record just inserted");
    assert_eq!(got.session_id, "s1");
    assert_eq!(got.steps.len(), 0);
    assert_eq!(got.created_at, "2024-01-01T00:00:00Z");
}

#[test]
fn upsert_replaces_wholesale() {
    let mut store = SessionStore::new();
    store.upsert(mk_session("s1", Some("old title"), Some("running"), "t0"));
    store.upsert(mk_session("s1", Some("new title"), Some("completed"), "t1"));
    let got = store.get(&"s1".to_string()).expect("record present");
    assert_eq!(got.task_title.as_deref(), Some("new title"));
    assert_eq!(got.status.as_deref(), Some("completed"));
    assert_eq!(got.created_at, "t1");
    assert_eq!(store.list().len(), 1);
}

#[test]
fn upsert_leaves_other_keys_unchanged() {
    let mut store = SessionStore::new();
    store.upsert(mk_session("s1", Some("one"), None, "t0"));
    store.upsert(mk_session("s2", Some("two"), None, "t0"));
    store.upsert(mk_session("s1", Some("one again"), None, "t9"));
    let s2 = store.get(&"s2".to_string()).expect("untouched record");
    assert_eq!(s2.task_title.as_deref(), Some("two"));
    assert_eq!(s2.created_at, "t0");
    let s1 = store.get(&"s1".to_string()).expect("replaced record");
    assert_eq!(s1.task_title.as_deref(), Some("one again"));
}

#[test]
fn records_carry_their_steps_verbatim() {
    let step = AgentStep {
        step_id: "st1".to_string(),
        step_name: StepName::CodeGeneration,
        status: StepStatus::Running,
        input: "{\"prompt\":\"write a parser\"}".to_string(),
        output: None,
        context_link: Some("ctx://42".to_string()),
        skill_source: Some(Skill {
            id: "sk1".to_string(),
            name: "codegen".to_string(),
            description: "generates code".to_string(),
            source: "builtin".to_string(),
        }),
        domain_knowledge_source: Some(vec![DomainKnowledge {
            id: "dk1".to_string(),
            name: "rust".to_string(),
            content: "ownership".to_string(),
            relevance_score_bits: (0.75f64).to_bits(),
        }]),
        domain_matching_score_bits: (0.5f64).to_bits(),
        timestamp: Some("t0".to_string()),
        duration_ms: Some(12),
        error_message: None,
    };
    let mut session = mk_session("s1", Some("title"), Some("running"), "t0");
    session.steps.push(step);
    let mut store = SessionStore::new();
    store.upsert(session);
    let got = store.get(&"s1".to_string()).expect("record present");
    assert_eq!(got.steps.len(), 1);
    assert_eq!(got.steps[0].step_id, "st1");
    assert_eq!(got.steps[0].step_name, StepName::CodeGeneration);
    assert_eq!(got.steps[0].status, StepStatus::Running);
    assert_eq!(f64::from_bits(got.steps[0].domain_matching_score_bits), 0.5);
    let dks = got.steps[0].domain_knowledge_source.as_ref().expect("knowledge kept");
    assert_eq!(f64::from_bits(dks[0].relevance_score_bits), 0.75);
    assert_eq!(got.steps[0].skill_source.as_ref().expect("skill kept").name, "codegen");
}

#[test]
fn list_projects_summaries() {
    let mut store = SessionStore::new();
    store.upsert(mk_session("s1", Some("build a parser"), Some("running"), "t0"));
    store.upsert(mk_session("s2", None, None, "t1"));
    let mut summaries = store.list();
    assert_eq!(summaries.len(), 2);
    summaries.sort_by(|a, b| a.session_id.cmp(&b.session_id));
    assert_eq!(summaries[0].session_id, "s1");
    assert_eq!(summaries[0].task_title.as_deref(), Some("build a parser"));
    assert_eq!(summaries[0].status.as_deref(), Some("running"));
    assert_eq!(summaries[0].created_at, "t0");
    assert_eq!(summaries[1].session_id, "s2");
    assert!(summaries[1].task_title.is_none());
    assert!(summaries[1].status.is_none());
}
