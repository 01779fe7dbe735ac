use jcode_app_core::config::DelegateConfig;
use jcode_app_core::configure_delegate::{
    normalize_opt_string, normalize_opt_u32, ConfigureDelegateInput, ConfigureDelegateTool,
};
use jcode_app_core::delegate::{DelegateInput, DelegateTool, Delegation, Stage, Step};
use jcode_app_core::protocol::{HistoryMessage, Request, ServerEvent};
use jcode_app_core::session_delegate_config::{
    session_delegate_config, update_session_delegate_config, SessionDelegateConfigs,
};

fn file_config() -> DelegateConfig {
    DelegateConfig {
        enabled: true,
        delegate_model: Some("big".to_string()),
        delegate_provider: Some("corp".to_string()),
        timeout_minutes: 30,
        allowed_models: vec!["m1".to_string(), "m2".to_string()],
    }
}

fn empty_file() -> DelegateConfig {
    DelegateConfig {
        enabled: false,
        delegate_model: None,
        delegate_provider: None,
        timeout_minutes: 30,
        allowed_models: vec![],
    }
}

fn input(task: &str, model: Option<&str>) -> DelegateInput {
    DelegateInput { task: task.to_string(), context: None, model: model.map(str::to_string) }
}

fn begin(file: &DelegateConfig, params: DelegateInput) -> Step {
    let configs = SessionDelegateConfigs::new();
    DelegateTool::new().start(&configs, file, params, "me", vec!["done".to_string()])
}

fn sent(step: Step) -> (Delegation, Request) {
    match step {
        Step::Send { delegation, request } => (delegation, request),
        Step::Finish(result) => panic!("finished with {:?}", result),
    }
}

fn finished(step: Step) -> Result<String, String> {
    match step {
        Step::Finish(result) => result,
        Step::Send { request, .. } => panic!("sent {:?}", request),
    }
}

fn advance(delegation: Delegation, reply: Result<ServerEvent, String>) -> Step {
    let configs = SessionDelegateConfigs::new();
    DelegateTool::new().advance(&configs, &file_config(), delegation, reply)
}

fn spawned(id: &str) -> Result<ServerEvent, String> {
    Ok(ServerEvent::CommSpawnResponse { new_session_id: id.to_string() })
}

fn at(stage: Stage) -> Delegation {
    Delegation {
        session_id: "me".to_string(),
        task: "T".to_string(),
        model_label: "big".to_string(),
        target_status: vec!["done".to_string()],
        stage,
    }
}

fn stop() -> Request {
    Request::CommStop {
        id: 1,
        session_id: "me".to_string(),
        target_session: "kid".to_string(),
        force: Some(true),
    }
}

#[test]
fn initial_message_holds_task_and_context() {
    let base = "You are a delegate agent. Complete the task below and report your results.\n\nTask: go";
    assert_eq!(DelegateTool::build_initial_message("go", None), base);
    assert_eq!(DelegateTool::build_initial_message("go", Some(" \n")), base);
    assert_eq!(
        DelegateTool::build_initial_message("go", Some(" ctx ")),
        format!("{}\n\nAdditional context:\n ctx ", base)
    );
}

#[test]
fn delegation_begins_with_an_agent() {
    let (delegation, request) = sent(begin(&file_config(), input("go", None)));
    assert_eq!(delegation.model_label, "big");
    assert_eq!(delegation.stage, Stage::Spawning);
    assert_eq!(
        request,
        Request::CommSpawn {
            id: 1,
            session_id: "me".to_string(),
            working_dir: None,
            initial_message: Some(DelegateTool::build_initial_message("go", None)),
            request_nonce: None,
            spawn_mode: Some("headless".to_string()),
            model: Some("big".to_string()),
            effort: None,
            label: Some("delegate".to_string()),
        }
    );
    let (delegation, _) = sent(begin(&empty_file(), input("go", None)));
    assert_eq!(delegation.model_label, "default");
    let (delegation, _) = sent(begin(&file_config(), input("go", Some("m2"))));
    assert_eq!(delegation.model_label, "m2");
}

#[test]
fn forbidden_models_are_refused() {
    assert_eq!(
        finished(begin(&file_config(), input("go", Some("m3")))),
        Ok("Cannot delegate: Model 'm3' is not in the allowed list. Allowed models: m1, m2\n\nUse `configure_delegate` to see available models or change the delegate model.".to_string())
    );
}

#[test]
fn delegation_that_goes_well() {
    let (delegation, _) = sent(begin(&file_config(), input("go", None)));
    let (delegation, request) = sent(advance(delegation, spawned("kid")));
    assert_eq!(
        request,
        Request::CommAwaitMembers {
            id: 1,
            session_id: "me".to_string(),
            target_status: vec!["done".to_string()],
            session_ids: vec!["kid".to_string()],
            mode: None,
            timeout_secs: Some(1800),
            background: false,
            notify: false,
            wake: false,
        }
    );
    let reply = Ok(ServerEvent::CommAwaitMembersResponse { completed: true });
    let (delegation, request) = sent(advance(delegation, reply));
    assert_eq!(
        request,
        Request::CommReadContext {
            id: 1,
            session_id: "me".to_string(),
            target_session: "kid".to_string(),
        }
    );
    let messages = vec![HistoryMessage { role: "assistant".to_string(), content: "42".to_string() }];
    let (delegation, request) =
        sent(advance(delegation, Ok(ServerEvent::CommContextHistory { messages })));
    assert_eq!(request, stop());
    assert_eq!(
        finished(advance(delegation, Err("gone".to_string()))),
        Ok("## Delegation Result\n\n**Delegate model:** big\n\n**Task:** go\n\n**Response:**\n\n42".to_string())
    );
}

#[test]
fn own_timeout_is_used() {
    let mut configs = SessionDelegateConfigs::new();
    update_session_delegate_config(&mut configs, "me", None, None, Some(Some(u32::MAX)), None, None);
    let step =
        DelegateTool::new().advance(&configs, &file_config(), at(Stage::Spawning), spawned("kid"));
    match sent(step).1 {
        Request::CommAwaitMembers { timeout_secs, .. } => {
            assert_eq!(timeout_secs, Some(u32::MAX as u64 * 60));
        }
        other => panic!("sent {:?}", other),
    }
}

#[test]
fn failed_starts_end_the_delegation() {
    let error = |reply| finished(advance(at(Stage::Spawning), reply)).unwrap_err();
    assert_eq!(error(spawned("")), "Spawn returned empty session ID.");
    assert_eq!(error(Ok(ServerEvent::Other)), "Failed to spawn delegate agent.");
    assert_eq!(error(Err("refused".to_string())), "refused");
}

#[test]
fn failed_waits_end_the_delegation() {
    let error = |reply| {
        let stage = Stage::Awaiting { spawned: "kid".to_string(), timeout_minutes: 3 };
        finished(advance(at(stage), reply)).unwrap_err()
    };
    assert_eq!(
        error(Ok(ServerEvent::Error { message: "bad".to_string() })),
        "Delegate task failed: bad. Session: kid"
    );
    assert_eq!(error(Ok(ServerEvent::Other)), "Delegate task failed: Unknown response. Session: kid");
    assert_eq!(
        error(Err("slow".to_string())),
        "Delegate task timed out or failed: slow. Session: kid"
    );
}

#[test]
fn late_agents_are_stopped() {
    let stage = Stage::Awaiting { spawned: "kid".to_string(), timeout_minutes: 3 };
    let reply = Ok(ServerEvent::CommAwaitMembersResponse { completed: false });
    let (delegation, request) = sent(advance(at(stage), reply));
    assert_eq!(request, stop());
    assert_eq!(
        finished(advance(delegation, Ok(ServerEvent::Other))),
        Err("Delegate task did not complete within 3 minutes. Session: kid".to_string())
    );
}

#[test]
fn missing_responses_are_reported() {
    let response = |reply| {
        let stage = Stage::Reading { spawned: "kid".to_string() };
        let (delegation, request) = sent(advance(at(stage), reply));
        assert_eq!(request, stop());
        match delegation.stage {
            Stage::Stopping { response } => response,
            other => panic!("at {:?}", other),
        }
    };
    assert_eq!(
        response(Ok(ServerEvent::CommContextHistory { messages: vec![] })),
        "<no response from delegate>"
    );
    assert_eq!(
        response(Ok(ServerEvent::Other)),
        "<delegate agent completed but response unavailable: Unknown response>"
    );
    assert_eq!(
        response(Ok(ServerEvent::Error { message: "bad".to_string() })),
        "<delegate agent completed but response unavailable: bad>"
    );
    assert_eq!(
        response(Err("gone".to_string())),
        "<delegate agent completed but response unavailable: gone>"
    );
}

#[test]
fn tools_name_and_describe_themselves() {
    assert_eq!(DelegateTool::new().name(), "delegate");
    assert_eq!(ConfigureDelegateTool::new().name(), "configure_delegate");
    assert!(DelegateTool::new().description().starts_with("Delegate a difficult sub-task"));
    assert!(ConfigureDelegateTool::new().description().ends_with("fall back to the config file."));
    let messages = vec![HistoryMessage { role: "assistant".to_string(), content: "a".to_string() }];
    assert_eq!(DelegateTool::extract_last_assistant_message(&messages).as_deref(), Some("a"));
}

#[test]
fn arguments_are_normalized() {
    let text = |s: &str| normalize_opt_string(Some(s.to_string()));
    assert_eq!(normalize_opt_string(None), None);
    assert_eq!(text(""), Some(None));
    assert_eq!(text(" \t"), Some(None));
    assert_eq!(text(" m "), Some(Some("m".to_string())));
    assert_eq!(normalize_opt_u32(None), None);
    assert_eq!(normalize_opt_u32(Some(0)), Some(None));
    assert_eq!(normalize_opt_u32(Some(7)), Some(Some(7)));
}

fn configure(
    configs: &mut SessionDelegateConfigs,
    file: &DelegateConfig,
    model: Option<&str>,
    provider: Option<&str>,
    timeout_minutes: Option<u32>,
) -> String {
    let params = ConfigureDelegateInput {
        delegate_model: model.map(str::to_string),
        delegate_provider: provider.map(str::to_string),
        timeout_minutes,
    };
    ConfigureDelegateTool::new().execute(configs, file, params, "me")
}

#[test]
fn settings_are_changed_and_cleared() {
    let mut configs = SessionDelegateConfigs::new();
    let file = file_config();
    assert_eq!(
        configure(&mut configs, &file, Some(" m1 "), Some("p"), Some(5)),
        "Delegate configuration updated for this session.\n\n**Delegate model:** m1\n**Timeout:** 5 minutes\n\nChanges persist for this session only. Use `configure_delegate` again to change them."
    );
    let settings = session_delegate_config(&configs, "me").unwrap();
    assert_eq!(settings.delegate_model.as_deref(), Some("m1"));
    assert_eq!(settings.delegate_provider.as_deref(), Some("p"));
    assert_eq!(settings.timeout_minutes, Some(5));
    assert_eq!(session_delegate_config(&configs, "you"), None);
    assert_eq!(
        configure(&mut configs, &file, Some(""), None, Some(0)),
        "Delegate configuration updated for this session.\n\n**Delegate model:** big\n**Timeout:** 30 minutes\n\nChanges persist for this session only. Use `configure_delegate` again to change them."
    );
    let settings = session_delegate_config(&configs, "me").unwrap();
    assert_eq!(settings.delegate_model, None);
    assert_eq!(settings.delegate_provider.as_deref(), Some("p"));
    assert!(configure(&mut configs, &empty_file(), Some(" "), None, None)
        .contains("**Delegate model:** (not set)\n"));
}

#[test]
fn forbidden_models_are_not_set() {
    let mut configs = SessionDelegateConfigs::new();
    assert_eq!(
        configure(&mut configs, &file_config(), Some("m3"), None, Some(5)),
        "Cannot set delegate model: Model 'm3' is not in the allowed list. Allowed models: m1, m2\n\nAvailable models: m1, m2"
    );
    assert_eq!(session_delegate_config(&configs, "me"), None);
}

#[test]
fn settings_are_shown() {
    let mut configs = SessionDelegateConfigs::new();
    assert_eq!(
        configure(&mut configs, &empty_file(), None, None, None),
        "## Current Delegate Configuration\n\n**Delegate model:** (not set)\n**Timeout:** 30 minutes\n\n**Allowed models:** (all models — no restriction set)\n\n**No session overrides.** Using config file values.\n, timeout=30min\n"
    );
    assert_eq!(session_delegate_config(&configs, "me"), None);
    configure(&mut configs, &file_config(), Some("m1"), Some("p"), Some(5));
    assert_eq!(
        configure(&mut configs, &file_config(), None, None, None),
        "## Current Delegate Configuration\n\n**Delegate model:** m1\n**Timeout:** 5 minutes\n\n**Allowed models:** m1, m2\n\n**Session overrides active:**\n- model: m1\n- provider: p\n- timeout: 5 min\n\n**Config file:** model=big, provider=corp, timeout=30min\n"
    );
}

#[test]
fn schemas_are_json() {
    let schema: serde_json::Value =
        serde_json::from_str(DelegateTool::new().parameters_schema()).unwrap();
    assert_eq!(schema["required"][0], "task");
    assert_eq!(schema["properties"]["context"]["type"], "string");
    assert_eq!(schema["properties"].as_object().unwrap().len(), 3);
    let schema: serde_json::Value =
        serde_json::from_str(ConfigureDelegateTool::new().parameters_schema()).unwrap();
    assert_eq!(schema["type"], "object");
    assert_eq!(schema["properties"]["timeout_minutes"]["type"], "integer");
    assert_eq!(
        schema["properties"]["delegate_provider"]["description"],
        "Provider for the delegate model (e.g. \"openai\", \"anthropic\"). Pass empty string to clear."
    );
}
