use oldpilot::config::{config_path, parse_config, render_config, Config, ConfigPathError};

#[test]
fn reads_quoted_and_plain_values() {
    let c = parse_config(
        "# comment\n\ndefault_model=\"gpt-4.1\"\nconfirm_execute=false\ncopilot_bin = '/opt/copilot'\nshell=zsh\n",
    );
    assert_eq!(c.default_model.as_deref(), Some("gpt-4.1"));
    assert_eq!(c.confirm_execute, Some(false));
    assert_eq!(c.copilot_bin.as_deref(), Some("/opt/copilot"));
    assert_eq!(c.shell.as_deref(), Some("zsh"));
}

#[test]
fn later_lines_win_and_odd_lines_are_skipped() {
    let c = parse_config("shell=sh\r\nno equals sign\nshell=bash\nunknown=1\n  # shell=fish\n");
    assert_eq!(c.shell.as_deref(), Some("bash"));
    assert_eq!(c.default_model, None);
}

#[test]
fn empty_values_and_unknown_words_change_nothing() {
    let c = parse_config("default_model=\"\"\nconfirm_execute=TRUE\nconfirm_execute=maybe\nshell=   \n");
    assert_eq!(c.default_model, None);
    assert_eq!(c.confirm_execute, Some(true));
    assert_eq!(c.shell, None);
    let d = parse_config("confirm_execute=Yes\nconfirm_execute=0");
    assert_eq!(d.confirm_execute, Some(false));
}

#[test]
fn value_keeps_text_after_first_equals() {
    let c = parse_config("default_model=a=b\n");
    assert_eq!(c.default_model.as_deref(), Some("a=b"));
    let d = parse_config("default_model=\"x\n");
    assert_eq!(d.default_model.as_deref(), Some("\"x"));
}

#[test]
fn writes_the_documented_format() {
    let c = Config {
        default_model: Some("say \"hi\"".into()),
        confirm_execute: Some(true),
        copilot_bin: None,
        shell: Some("sh".into()),
    };
    assert_eq!(
        render_config(&c),
        "# oldpilot config\n# Lines are key=value. Strings may be quoted.\n\ndefault_model=\"say \\\"hi\\\"\"\nconfirm_execute=true\nshell=\"sh\"\n"
    );
    assert_eq!(
        render_config(&Config::default()),
        "# oldpilot config\n# Lines are key=value. Strings may be quoted.\n\n"
    );
}

#[test]
fn read_after_write_gives_back_the_config() {
    let c = Config {
        default_model: Some(" gpt 4 ".into()),
        confirm_execute: Some(false),
        copilot_bin: Some("/usr/local/bin/copilot".into()),
        shell: Some("bash".into()),
    };
    assert_eq!(parse_config(&render_config(&c)), c);
    assert_eq!(parse_config(&render_config(&Config::default())), Config::default());
}

#[test]
fn config_path_prefers_xdg() {
    assert_eq!(config_path(Some("/x".into()), Some("/home/u".into())), Ok("/x/oldpilot/config".to_string()));
    assert_eq!(config_path(Some("/x/".into()), None), Ok("/x/oldpilot/config".to_string()));
    assert_eq!(config_path(None, Some("/home/u".into())), Ok("/home/u/.config/oldpilot/config".to_string()));
    assert_eq!(config_path(None, None), Err(ConfigPathError::HomeUnset));
    assert_eq!(ConfigPathError::HomeUnset.message(), "HOME or XDG_CONFIG_HOME is not set");
}

#[test]
fn quotes_do_not_survive_a_round_trip() {
    let c = Config { shell: Some("a\"b".into()), ..Default::default() };
    assert_eq!(parse_config(&render_config(&c)).shell.as_deref(), Some("a\\\"b"));
}

#[test]
fn ignored_lines_change_nothing() {
    let base = "default_model=m\nshell=zsh\n";
    let with_noise = "  \n# note\ndefault_model=m\nno equals\ncolor=blue\n shell = zsh\n\t# shell=fish\n";
    assert_eq!(parse_config(with_noise), parse_config(base));
}
