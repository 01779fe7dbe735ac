use jcode_app_core::config::DelegateConfig;
use jcode_app_core::session_delegate_config::{
    allowed_models, effective_delegate_model, effective_delegate_provider,
    effective_delegate_timeout, effective_enabled, forget_session_delegate_config,
    record_session_delegate_config, session_delegate_config, update_session_delegate_config,
    validate_model_allowed, DelegateSessionConfig, SessionDelegateConfigs,
};

fn file_config() -> DelegateConfig {
    DelegateConfig {
        enabled: true,
        delegate_model: Some("file-model".to_string()),
        delegate_provider: Some("file-provider".to_string()),
        timeout_minutes: 30,
        allowed_models: vec!["m1".to_string(), "m2".to_string()],
    }
}

#[test]
fn records_and_reads_back_config() {
    let mut configs = SessionDelegateConfigs::new();
    let sid = "session-delegate-config-roundtrip";
    forget_session_delegate_config(&mut configs, sid);
    assert_eq!(session_delegate_config(&configs, sid), None);

    let cfg = DelegateSessionConfig {
        delegate_model: Some("opus-4-8".to_string()),
        delegate_provider: None,
        timeout_minutes: Some(60),
        enabled: None,
        allowed_models: None,
    };
    record_session_delegate_config(&mut configs, sid, Some(cfg.clone()));
    assert_eq!(session_delegate_config(&configs, sid).as_ref(), Some(&cfg));

    // Overwrite with a new value.
    let cfg2 = DelegateSessionConfig {
        delegate_model: Some("gpt-5.5".to_string()),
        delegate_provider: Some("openai".to_string()),
        timeout_minutes: None,
        enabled: Some(true),
        allowed_models: Some(vec!["gpt-5.5".to_string()]),
    };
    record_session_delegate_config(&mut configs, sid, Some(cfg2.clone()));
    assert_eq!(session_delegate_config(&configs, sid).as_ref(), Some(&cfg2));

    // Clearing forgets it.
    record_session_delegate_config(&mut configs, sid, None);
    assert_eq!(session_delegate_config(&configs, sid), None);
}

#[test]
fn update_specific_fields() {
    let mut configs = SessionDelegateConfigs::new();
    let sid = "session-delegate-config-update";
    forget_session_delegate_config(&mut configs, sid);

    // Set just the model.
    update_session_delegate_config(
        &mut configs,
        sid,
        Some(Some("opus-4-8".to_string())),
        None,
        None,
        None,
        None,
    );
    let cfg = session_delegate_config(&configs, sid).unwrap();
    assert_eq!(cfg.delegate_model.as_deref(), Some("opus-4-8"));
    assert_eq!(cfg.delegate_provider, None);
    assert_eq!(cfg.timeout_minutes, None);

    // Update just the timeout, model stays.
    update_session_delegate_config(&mut configs, sid, None, None, Some(Some(45)), None, None);
    let cfg = session_delegate_config(&configs, sid).unwrap();
    assert_eq!(cfg.delegate_model.as_deref(), Some("opus-4-8"));
    assert_eq!(cfg.timeout_minutes, Some(45));
}

#[test]
fn sessions_without_settings_follow_the_file() {
    let configs = SessionDelegateConfigs::new();
    let file = file_config();
    assert_eq!(effective_delegate_model(&configs, &file, "s").as_deref(), Some("file-model"));
    assert_eq!(effective_delegate_provider(&configs, &file, "s").as_deref(), Some("file-provider"));
    assert_eq!(effective_delegate_timeout(&configs, &file, "s"), 30);
    assert_eq!(allowed_models(&configs, &file, "s"), vec!["m1", "m2"]);
    assert!(effective_enabled(&configs, &file, "s"));
}

#[test]
fn own_settings_are_in_force_until_cleared() {
    let mut configs = SessionDelegateConfigs::new();
    let file = file_config();
    update_session_delegate_config(
        &mut configs,
        "s",
        Some(Some("own".to_string())),
        Some(Some("me".to_string())),
        Some(Some(5)),
        Some(Some(false)),
        Some(Some(vec!["only".to_string()])),
    );
    assert_eq!(effective_delegate_model(&configs, &file, "s").as_deref(), Some("own"));
    assert_eq!(effective_delegate_provider(&configs, &file, "s").as_deref(), Some("me"));
    assert_eq!(effective_delegate_timeout(&configs, &file, "s"), 5);
    assert_eq!(allowed_models(&configs, &file, "s"), vec!["only"]);
    assert!(!effective_enabled(&configs, &file, "s"));
    assert_eq!(effective_delegate_timeout(&configs, &file, "other"), 30);
    update_session_delegate_config(
        &mut configs,
        "s",
        Some(None),
        None,
        Some(None),
        None,
        None,
    );
    assert_eq!(effective_delegate_model(&configs, &file, "s").as_deref(), Some("file-model"));
    assert_eq!(effective_delegate_provider(&configs, &file, "s").as_deref(), Some("me"));
    assert_eq!(effective_delegate_timeout(&configs, &file, "s"), 30);
    forget_session_delegate_config(&mut configs, "s");
    assert!(effective_enabled(&configs, &file, "s"));
    assert_eq!(session_delegate_config(&configs, "s"), None);
}

#[test]
fn default_settings_leave_everything_open() {
    assert_eq!(
        DelegateSessionConfig::default(),
        DelegateSessionConfig {
            delegate_model: None,
            delegate_provider: None,
            timeout_minutes: None,
            enabled: None,
            allowed_models: None,
        }
    );
}

#[test]
fn models_are_validated_against_the_list() {
    let mut configs = SessionDelegateConfigs::new();
    let file = file_config();
    assert_eq!(validate_model_allowed(&configs, &file, "s", "m1"), Ok(()));
    assert_eq!(validate_model_allowed(&configs, &file, "s", "file-model"), Ok(()));
    assert_eq!(
        validate_model_allowed(&configs, &file, "s", "m3"),
        Err("Model 'm3' is not in the allowed list. Allowed models: m1, m2".to_string())
    );
    update_session_delegate_config(
        &mut configs,
        "s",
        Some(Some("m3".to_string())),
        None,
        None,
        None,
        None,
    );
    assert_eq!(validate_model_allowed(&configs, &file, "s", "m3"), Ok(()));
    assert!(validate_model_allowed(&configs, &file, "other", "m3").is_err());
    update_session_delegate_config(&mut configs, "s", None, None, None, None, Some(Some(vec![])));
    assert_eq!(validate_model_allowed(&configs, &file, "s", "anything"), Ok(()));
}

#[test]
fn model_in_force_is_always_allowed() {
    let mut configs = SessionDelegateConfigs::new();
    let file = file_config();
    update_session_delegate_config(
        &mut configs,
        "s",
        Some(Some("unlisted".to_string())),
        None,
        None,
        None,
        Some(Some(vec!["m9".to_string()])),
    );
    for session in ["s", "t"] {
        let model = effective_delegate_model(&configs, &file, session).unwrap();
        assert_eq!(validate_model_allowed(&configs, &file, session, &model), Ok(()));
    }
}
