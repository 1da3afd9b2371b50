use codesmith::cli::{CliError, SettingUpdate};
use codesmith::settings::{
    active_model_profile_output, add_local_model_profile, apply_setting_update,
    model_profiles_output, settings_summary, use_model_profile, AppSettings, edit_active_profile,
    ProfileEdit,
};
use codesmith::types::{BackendKind, ModelProfile};

fn settings() -> AppSettings {
    let mut settings = AppSettings::with_workspace("/Users/gim-yonghyeon/CodeSmith".to_string());
    settings.llm_base_url = "http://localhost:11434/v1".to_string();
    settings.llm_model = "local".to_string();
    settings.api_key = None;
    settings.command_timeout_secs = 5;
    settings.model_profiles = vec![ModelProfile::from_legacy(
        "default",
        settings.llm_base_url.clone(),
        settings.llm_model.clone(),
        settings.api_key.clone(),
    )];
    settings.ensure_model_profiles();
    settings
}

#[test]
fn applying_setting_updates_mutates_settings() {
    let mut settings = settings();

    apply_setting_update(
        &mut settings,
        SettingUpdate::BaseUrl("http://localhost:1234/v1".to_string()),
    )
    .expect("base url update");
    apply_setting_update(&mut settings, SettingUpdate::Model("local-model".to_string()))
        .expect("model update");
    apply_setting_update(&mut settings, SettingUpdate::ApiKey(Some("secret".to_string())))
        .expect("api key update");
    apply_setting_update(
        &mut settings,
        SettingUpdate::Workspace("/Users/gim-yonghyeon/CodeSmith".to_string()),
    )
    .expect("workspace update");
    apply_setting_update(&mut settings, SettingUpdate::TimeoutSecs(45)).expect("timeout update");

    assert_eq!(settings.llm_base_url, "http://localhost:1234/v1");
    assert_eq!(settings.llm_model, "local-model");
    assert_eq!(settings.api_key, Some("secret".to_string()));
    assert_eq!(settings.default_workspace, "/Users/gim-yonghyeon/CodeSmith");
    assert_eq!(settings.command_timeout_secs, 45);
}

#[test]
fn model_profile_helpers_add_switch_and_show_profiles() {
    let mut settings = settings();

    let added = add_local_model_profile(
        &mut settings,
        "qwen35-opus",
        BackendKind::Ollama,
        "http://localhost:11434/v1",
        "gag0/qwen35-opus-distil:27b",
        Some("Qwen 35 Opus Distil"),
    )
    .expect("add profile");
    let switched = use_model_profile(&mut settings, "qwen35-opus").expect("switch profile");
    let profiles = model_profiles_output(&settings);
    let active = active_model_profile_output(&settings);

    assert!(added.contains("qwen35-opus"));
    assert!(switched.contains("qwen35-opus"));
    assert!(profiles.contains("* qwen35-opus"));
    assert!(active.contains("gag0/qwen35-opus-distil:27b"));
    assert_eq!(settings.llm_model, "gag0/qwen35-opus-distil:27b");
    assert!(settings
        .active_model_profile()
        .expect("active profile")
        .system_prompt
        .contains("Do not use Markdown fences"));
}

#[test]
fn legacy_settings_migrate_to_default_model_profile() {
    let mut settings = AppSettings::with_workspace("/w".to_string());
    settings.active_profile = String::new();
    settings.model_profiles = Vec::new();
    settings.llm_base_url = "http://localhost:1234/v1".to_string();
    settings.llm_model = "legacy-model".to_string();
    settings.api_key = Some("k".to_string());

    settings.ensure_model_profiles();

    assert_eq!(settings.active_profile, "default");
    assert_eq!(settings.model_profiles.len(), 1);
    assert_eq!(settings.model_profiles[0].id, "default");
    assert_eq!(settings.model_profiles[0].base_url, "http://localhost:1234/v1");
    assert_eq!(settings.model_profiles[0].model, "legacy-model");
    assert_eq!(settings.llm_model, "legacy-model");
    assert_eq!(settings.api_key, Some("k".to_string()));
}

#[test]
fn ensuring_twice_changes_nothing_more() {
    let mut once = AppSettings::with_workspace("/w".to_string());
    once.active_profile = "missing".to_string();
    once.ensure_model_profiles();
    let mut twice = once.clone();
    twice.ensure_model_profiles();
    assert_eq!(once, twice);
    assert!(once.active_model_profile().is_some());
}

#[test]
fn setting_errors_and_unknown_profiles() {
    let mut s = settings();
    let err = apply_setting_update(&mut s, SettingUpdate::BaseUrl("  ".to_string())).unwrap_err();
    assert_eq!(err, CliError::Blank("base-url".to_string()));
    assert_eq!(err.message(), "base-url cannot be empty");
    let err = apply_setting_update(&mut s, SettingUpdate::TimeoutSecs(0)).unwrap_err();
    assert_eq!(err, CliError::TimeoutZero);
    let err = use_model_profile(&mut s, "nope").unwrap_err();
    assert_eq!(err, CliError::ProfileNotFound("nope".to_string()));
    assert_eq!(err.message(), "model profile 'nope' was not found");
}

#[test]
fn settings_summary_lists_active_values() {
    let s = settings();
    let out = settings_summary(&s, "/home/u/.codesmith/settings.toml");
    assert!(out.starts_with("Settings\npath: /home/u/.codesmith/settings.toml\nactive-profile: default\n"));
    assert!(out.contains("base-url: http://localhost:11434/v1\n"));
    assert!(out.contains("model: local\n"));
    assert!(out.contains("timeout: 5s\n"));
}

#[test]
fn a_blank_first_profile_stays_active_unless_default_exists() {
    let mut s = AppSettings::with_workspace("/w".to_string());
    s.model_profiles = vec![ModelProfile::from_legacy(" ", "http://a/v1".to_string(), "a".to_string(), None)];
    s.active_profile = "missing".to_string();
    s.ensure_model_profiles();
    assert_eq!(s.active_profile, " ");
    let mut again = s.clone();
    again.ensure_model_profiles();
    assert_eq!(again, s);

    s.model_profiles.push(ModelProfile::from_legacy("default", "http://b/v1".to_string(), "b".to_string(), None));
    let mut moved = s.clone();
    moved.ensure_model_profiles();
    assert_eq!(moved.active_profile, "default");
    assert_eq!(moved.llm_model, "b");
}

#[test]
fn panel_edits_go_to_the_active_profile() {
    let mut s = AppSettings::with_workspace("/w".to_string());
    edit_active_profile(&mut s, ProfileEdit::Model("m2".to_string()));
    assert_eq!(s.llm_model, "m2");
    assert_eq!(s.active_model_profile().unwrap().model, "m2");
    edit_active_profile(&mut s, ProfileEdit::ApiKey("k".to_string()));
    assert_eq!(s.api_key, Some("k".to_string()));
    edit_active_profile(&mut s, ProfileEdit::ApiKey(String::new()));
    assert_eq!(s.api_key, None);
    edit_active_profile(&mut s, ProfileEdit::BaseUrl("http://h/v1".to_string()));
    assert_eq!(s.llm_base_url, "http://h/v1");
}
