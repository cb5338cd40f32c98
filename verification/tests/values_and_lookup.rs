use oldpilot::config::Config;
use oldpilot::lookup::{
    clipboard_available, clipboard_tool_args, executable, executable_candidates, resolve_copilot,
    resolve_shell, LookupError,
};
use oldpilot::values::{
    cfg_bool_display, cfg_string_display, confirm_enabled, copilot_name, default_model,
    env_or_config, shell_name, EnvOverrides,
};

const SEARCH_PATH: &str = "/usr/local/bin:/usr/bin:/bin";

fn existing_files(candidates: &[String]) -> Vec<String> {
    candidates.iter().filter(|p| std::path::Path::new(p.as_str()).is_file()).cloned().collect()
}

fn files_for(name: &str) -> Vec<String> {
    existing_files(&executable_candidates(name, &Some(SEARCH_PATH.to_string())))
}

#[test]
fn env_precedes_config() {
    let c = Config { default_model: Some("config-model".into()), ..Default::default() };
    let mut env = EnvOverrides::none();
    env.default_model = Some("env-model".into());
    assert_eq!(default_model(&c, &env), "env-model");
}

#[test]
fn shell_lookup_is_deterministic() {
    let files = files_for("sh");
    assert!(executable("sh", &Some(SEARCH_PATH.to_string()), &files).is_some());
}

#[test]
fn missing_binary_is_reported() {
    let c = Config {
        copilot_bin: Some("definitely-not-a-real-oldpilot-binary".into()),
        ..Default::default()
    };
    let env = EnvOverrides::none();
    let files = files_for(&copilot_name(&c, &env));
    assert!(resolve_copilot(&c, &env, &Some(SEARCH_PATH.to_string()), &files).is_err());
}

#[test]
fn cfg_string_display_uses_fallback_when_empty() {
    assert_eq!(cfg_string_display(&None, "fallback"), "fallback");
    assert_eq!(cfg_string_display(&Some("set".into()), "fallback"), "set");
}

#[test]
fn cfg_bool_display_reflects_override_or_fallback() {
    assert_eq!(cfg_bool_display(None, true), "true");
    assert_eq!(cfg_bool_display(Some(false), true), "false");
}

#[test]
fn blank_values_fall_back() {
    assert_eq!(cfg_string_display(&Some("  \t".into()), "fallback"), "fallback");
    assert_eq!(env_or_config(Some("   ".into()), Some("file".into()), "dflt"), "file");
    assert_eq!(env_or_config(None, None, "dflt"), "dflt");
    assert_eq!(env_or_config(Some("env".into()), None, "dflt"), "env");
}

#[test]
fn defaults_apply_without_settings() {
    let c = Config::default();
    let env = EnvOverrides::none();
    assert_eq!(default_model(&c, &env), "gpt-4.1");
    assert_eq!(copilot_name(&c, &env), "copilot");
    assert_eq!(shell_name(&c, &env), "sh");
    assert!(confirm_enabled(&c, &env));
}

#[test]
fn confirmation_switches() {
    let off = Config { confirm_execute: Some(false), ..Default::default() };
    let mut env = EnvOverrides::none();
    assert!(!confirm_enabled(&off, &env));
    env.confirm_execute = Some("YES".into());
    assert!(confirm_enabled(&off, &env));
    env.confirm_execute = Some("False".into());
    assert!(!confirm_enabled(&off, &env));
    env.confirm_execute = Some("NO".into());
    assert!(!confirm_enabled(&Config::default(), &env));
}

#[test]
fn bare_names_search_the_path_in_order() {
    let c = executable_candidates("git", &Some("/a:/b/::c".to_string()));
    assert_eq!(c, vec!["/a/git", "/b/git", "git", "c/git"]);
    assert!(executable_candidates("git", &None).is_empty());
}

#[test]
fn paths_are_taken_as_given() {
    assert_eq!(executable_candidates("/bin/sh", &Some("/x".to_string())), vec!["/bin/sh"]);
    assert_eq!(executable_candidates("./run", &Some("/x".to_string())), vec!["./run"]);
    assert_eq!(executable_candidates("a/b", &Some("/x".to_string())), vec!["a/b"]);
    assert_eq!(executable_candidates("tool/", &Some("/x".to_string())), vec!["/x/tool/"]);
    assert_eq!(executable_candidates(".", &Some("/x".to_string())), vec!["/x/."]);
}

#[test]
fn first_known_file_wins() {
    let path = Some("/a:/b:/c".to_string());
    let files = vec!["/c/tool".to_string(), "/b/tool".to_string()];
    assert_eq!(executable("tool", &path, &files), Some("/b/tool".to_string()));
    assert_eq!(executable("other", &path, &files), None);
}

#[test]
fn resolving_uses_the_configured_names() {
    let c = Config { shell: Some("zsh".into()), ..Default::default() };
    let env = EnvOverrides::none();
    let path = Some("/usr/bin".to_string());
    let files = vec!["/usr/bin/zsh".to_string(), "/usr/bin/copilot".to_string()];
    assert_eq!(resolve_shell(&c, &env, &path, &files), Some("/usr/bin/zsh".to_string()));
    assert_eq!(resolve_copilot(&c, &env, &path, &files), Ok("/usr/bin/copilot".to_string()));
    assert_eq!(resolve_copilot(&c, &env, &path, &vec![]), Err(LookupError::CopilotNotFound));
    assert!(LookupError::CopilotNotFound.message().contains("npm install -g @github/copilot"));
}

#[test]
fn clipboard_needs_a_provider() {
    let path = Some("/usr/bin".to_string());
    assert!(clipboard_available(true, &path, &vec![]));
    assert!(!clipboard_available(false, &path, &vec![]));
    assert!(clipboard_available(false, &path, &vec!["/usr/bin/xclip".to_string()]));
    assert_eq!(clipboard_tool_args("xclip"), vec!["-selection", "clipboard"]);
    assert!(clipboard_tool_args("pbcopy").is_empty());
}
