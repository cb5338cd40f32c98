use oldpilot::keys::execution_confirmed;
use oldpilot::suggest::{suggest_action, SuggestAction};
use oldpilot::config::Config;
use oldpilot::doctor::{doctor_lines, doctor_passed, doctor_report, DoctorReport};
use oldpilot::keys::{confirm_answer, confirmation_step, picker_action, ConfirmStep, Key, PickerAction};
use oldpilot::prompt::{
    copilot_args, explain_prompt, explain_request, format_block, join_words, suggest_prompt,
    suggestion_of, PromptError,
};
use oldpilot::settings::{settings_field, SettingsAction, SettingsEditor, SettingsField};
use oldpilot::values::EnvOverrides;

fn words(ws: &[&str]) -> Vec<String> {
    ws.iter().map(|w| w.to_string()).collect()
}

#[test]
fn prompts_carry_their_markers() {
    assert_eq!(explain_prompt(&words(&["ls", "-la"])), Ok("[[CPLT:CE]] ls -la".to_string()));
    assert_eq!(suggest_prompt(&words(&["list", "files"])), Ok("[[CPLT:CS]] TASK: list files".to_string()));
    assert_eq!(explain_prompt(&words(&[])), Err(PromptError::Empty));
    assert_eq!(suggest_prompt(&words(&[" ", ""])), Err(PromptError::Empty));
    assert_eq!(PromptError::Empty.message(), "Prompt cannot be empty");
    assert_eq!(join_words(&words(&["a", "", "b"])), "a  b");
}

#[test]
fn model_argument_only_when_given() {
    assert_eq!(copilot_args("p", &None), vec!["-p", "p", "-s"]);
    assert_eq!(copilot_args("p", &Some(String::new())), vec!["-p", "p", "-s"]);
    assert_eq!(copilot_args("p", &Some("gpt-4.1".into())), vec!["-p", "p", "-s", "--model", "gpt-4.1"]);
}

#[test]
fn suggestions_are_trimmed() {
    assert_eq!(suggestion_of("  ls -la\n"), Some("ls -la".to_string()));
    assert_eq!(suggestion_of(" \n\t"), None);
    assert_eq!(explain_request("ls"), vec!["Explain this command: ls"]);
}

#[test]
fn blocks_indent_each_line() {
    assert_eq!(format_block("Copilot", "a\r\nb"), "\u{1b}[1;36mCopilot\u{1b}[0m\n  a\n  b\n");
    assert_eq!(format_block("L", ""), "\u{1b}[1;36mL\u{1b}[0m\n\n");
    assert_eq!(format_block("L", "x\n"), "\u{1b}[1;36mL\u{1b}[0m\n  x\n");
}

#[test]
fn picker_keys() {
    assert_eq!(picker_action(Key::Enter), Some(PickerAction::Execute));
    assert_eq!(picker_action(Key::Char('c')), Some(PickerAction::Copy));
    assert_eq!(picker_action(Key::Char('x')), Some(PickerAction::Explain));
    assert_eq!(picker_action(Key::Char('q')), Some(PickerAction::Quit));
    assert_eq!(picker_action(Key::Esc), Some(PickerAction::Quit));
    assert_eq!(picker_action(Key::Char('e')), None);
    assert!(confirm_answer(Key::Char('Y')));
    assert!(!confirm_answer(Key::Enter));
}

#[test]
fn confirmation_steps() {
    let env = EnvOverrides::none();
    assert_eq!(confirmation_step(&Config::default(), &env, true), ConfirmStep::Ask);
    assert_eq!(confirmation_step(&Config::default(), &env, false), ConfirmStep::Refuse);
    let off = Config { confirm_execute: Some(false), ..Default::default() };
    assert_eq!(confirmation_step(&off, &env, false), ConfirmStep::Proceed);
}

#[test]
fn settings_navigation_wraps() {
    let mut e = SettingsEditor::new(Config::default(), EnvOverrides::none());
    assert_eq!(e.handle_key(Key::Up), SettingsAction::Continue);
    assert_eq!(e.idx, 5);
    assert_eq!(settings_field(e.idx), SettingsField::Quit);
    e.handle_key(Key::Down);
    assert_eq!(e.idx, 0);
    e.handle_key(Key::Down);
    e.handle_key(Key::Up);
    assert_eq!(e.idx, 0);
    assert_eq!(e.handle_key(Key::Char('q')), SettingsAction::Quit);
}

#[test]
fn settings_edit_commit_and_cancel() {
    let mut e = SettingsEditor::new(Config::default(), EnvOverrides::none());
    e.handle_key(Key::Enter);
    assert_eq!(e.editing, Some(SettingsField::DefaultModel));
    for c in "  o1 x".chars() {
        e.handle_key(Key::Char(c));
    }
    e.handle_key(Key::Backspace);
    e.handle_key(Key::Backspace);
    assert_eq!(e.handle_key(Key::Char('q')), SettingsAction::Continue);
    e.handle_key(Key::Enter);
    assert_eq!(e.cfg.default_model.as_deref(), Some("o1q"));
    assert_eq!(e.status, "Updated (not saved yet — select Save to persist).");
    e.handle_key(Key::Enter);
    e.handle_key(Key::Char('z'));
    e.handle_key(Key::Esc);
    assert_eq!(e.cfg.default_model.as_deref(), Some("o1q"));
    assert_eq!(e.status, "Edit canceled.");
    e.handle_key(Key::Enter);
    for _ in 0..4 {
        e.handle_key(Key::Backspace);
    }
    e.handle_key(Key::Enter);
    assert_eq!(e.cfg.default_model, None);
}

#[test]
fn settings_toggle_save_and_rows() {
    let mut e = SettingsEditor::new(Config::default(), EnvOverrides::none());
    e.handle_key(Key::Down);
    e.handle_key(Key::Enter);
    assert_eq!(e.cfg.confirm_execute, Some(false));
    e.handle_key(Key::Enter);
    assert_eq!(e.cfg.confirm_execute, Some(true));
    e.handle_key(Key::Down);
    e.handle_key(Key::Down);
    e.handle_key(Key::Down);
    assert_eq!(e.handle_key(Key::Enter), SettingsAction::Save);
    e.record_saved("/tmp/c");
    assert_eq!(e.status, "Saved to /tmp/c");
    e.record_save_failed("denied");
    assert_eq!(e.status, "Save failed: denied");
    let rows = e.rows();
    assert_eq!(rows.len(), 6);
    assert_eq!(rows[0].label, "Default model");
    assert_eq!(rows[0].value, "gpt-4.1");
    assert_eq!(rows[1].value, "true");
    assert_eq!(rows[2].value, "copilot");
    assert_eq!(rows[3].value, "sh");
    assert!(rows[4].selected);
    assert_eq!(rows[5].value, "");
}

#[test]
fn rows_show_the_edit_buffer() {
    let mut env = EnvOverrides::none();
    env.shell = Some("fish".into());
    let mut e = SettingsEditor::new(Config::default(), env);
    assert_eq!(e.rows()[3].value, "fish");
    e.handle_key(Key::Down);
    e.handle_key(Key::Down);
    e.handle_key(Key::Down);
    e.handle_key(Key::Enter);
    e.handle_key(Key::Char('z'));
    assert_eq!(e.rows()[3].value, "z_");
}

#[test]
fn doctor_reports_and_hints() {
    let ok = DoctorReport {
        copilot: Some("/usr/bin/copilot".into()),
        clipboard: true,
        terminal: true,
        shell: Some("/bin/sh".into()),
    };
    assert!(doctor_passed(&ok));
    assert_eq!(
        doctor_lines(&ok, "sh"),
        vec![
            "oldpilot doctor",
            "  copilot: OK (/usr/bin/copilot)",
            "  clipboard: OK",
            "  shell: OK (/bin/sh)",
            "  terminal: interactive",
        ]
    );
    let bad = DoctorReport { copilot: None, clipboard: false, terminal: false, shell: None };
    assert!(!doctor_passed(&bad));
    let lines = doctor_lines(&bad, "zsh");
    assert_eq!(lines.len(), 9);
    assert_eq!(lines[1], "  copilot: MISSING");
    assert_eq!(lines[4], "  terminal: non-interactive");
    assert_eq!(lines[7], "  fix: install the configured shell `zsh` or set COPILOT_SHELL");
}

#[test]
fn doctor_report_collects_findings() {
    let path = Some("/bin".to_string());
    let files = vec!["/bin/sh".to_string()];
    let r = doctor_report(&Config::default(), &EnvOverrides::none(), &path, &files, false, true);
    assert_eq!(r.copilot, None);
    assert_eq!(r.shell.as_deref(), Some("/bin/sh"));
    assert!(!r.clipboard);
    assert!(r.terminal);
}

#[test]
fn suggestion_runs_only_when_confirmed() {
    assert!(execution_confirmed(ConfirmStep::Proceed, None));
    assert!(!execution_confirmed(ConfirmStep::Refuse, None));
    assert!(execution_confirmed(ConfirmStep::Ask, Some(Key::Char('y'))));
    assert!(!execution_confirmed(ConfirmStep::Ask, Some(Key::Char('n'))));
    assert!(!execution_confirmed(ConfirmStep::Ask, None));
    assert_eq!(
        suggest_action(PickerAction::Execute, true, "ls -la"),
        SuggestAction::Run(vec!["-c".to_string(), "ls -la".to_string()])
    );
    assert_eq!(suggest_action(PickerAction::Execute, false, "ls"), SuggestAction::Cancel);
    assert_eq!(suggest_action(PickerAction::Copy, true, "ls"), SuggestAction::Copy);
    assert_eq!(
        suggest_action(PickerAction::Explain, false, "ls"),
        SuggestAction::Explain(vec!["Explain this command: ls".to_string()])
    );
    assert_eq!(suggest_action(PickerAction::Quit, true, "ls"), SuggestAction::Cancel);
}
