//! The interactive settings screen, as a state machine: each key press takes the
//! screen from one state to the next and tells the caller what to do.
use vstd::prelude::*;
use crate::config::{Config, ConfigView};
use crate::keys::Key;
use crate::text::{chars_of, is_blank, push_chars, string_of, trim, trim_chars};
use crate::values::{
    bool_text, cfg_bool_display, cfg_string_display, chosen_value, confirm_enabled,
    confirm_in_effect, copilot_name, default_model, shell_name, string_display, EnvOverrides,
    EnvView,
};

verus! {

/// The rows of the settings screen, top to bottom.
#[derive(Clone, Copy, Debug, PartialEq, Eq, Structural)]
pub enum SettingsField {
    DefaultModel,
    ConfirmExecute,
    CopilotBin,
    Shell,
    Save,
    Quit,
}

/// How many rows the settings screen has.
pub const FIELD_COUNT: usize = 6;

/// The field in row `i`.
pub open spec fn field_at(i: int) -> SettingsField {
    if i == 0 {
        SettingsField::DefaultModel
    } else if i == 1 {
        SettingsField::ConfirmExecute
    } else if i == 2 {
        SettingsField::CopilotBin
    } else if i == 3 {
        SettingsField::Shell
    } else if i == 4 {
        SettingsField::Save
    } else {
        SettingsField::Quit
    }
}

/// The field in row `i`.
pub fn settings_field(i: usize) -> (f: SettingsField)
    requires
        i < FIELD_COUNT,
    ensures
        f == field_at(i as int),
{
    if i == 0 {
        SettingsField::DefaultModel
    } else if i == 1 {
        SettingsField::ConfirmExecute
    } else if i == 2 {
        SettingsField::CopilotBin
    } else if i == 3 {
        SettingsField::Shell
    } else if i == 4 {
        SettingsField::Save
    } else {
        SettingsField::Quit
    }
}

/// What the caller does after a key press.
#[derive(Clone, Copy, Debug, PartialEq, Eq, Structural)]
pub enum SettingsAction {
    /// Draw the screen again and wait for the next key.
    Continue,
    /// Write the configuration to its file, then report how that went.
    Save,
    /// Leave the settings screen.
    Quit,
}

/// The fields whose value is a text that can be edited.
pub open spec fn is_text_field(f: SettingsField) -> bool {
    f == SettingsField::DefaultModel || f == SettingsField::CopilotBin || f == SettingsField::Shell
}

/// The file value of a text field.
pub open spec fn text_field(c: ConfigView, f: SettingsField) -> Option<Seq<char>> {
    match f {
        SettingsField::DefaultModel => c.default_model,
        SettingsField::CopilotBin => c.copilot_bin,
        SettingsField::Shell => c.shell,
        _ => None,
    }
}

/// `c` with the text field `f` set to `v`; other fields leave `c` as it is.
pub open spec fn with_text_field(c: ConfigView, f: SettingsField, v: Option<Seq<char>>) -> ConfigView {
    match f {
        SettingsField::DefaultModel => ConfigView { default_model: v, ..c },
        SettingsField::CopilotBin => ConfigView { copilot_bin: v, ..c },
        SettingsField::Shell => ConfigView { shell: v, ..c },
        _ => c,
    }
}

pub open spec fn status_help() -> Seq<char> {
    "↑/↓ move · Enter edit/toggle/save · Esc cancel edit · q quit"@
}

pub open spec fn status_updated() -> Seq<char> {
    "Updated (not saved yet — select Save to persist)."@
}

pub open spec fn status_canceled() -> Seq<char> {
    "Edit canceled."@
}

pub open spec fn status_toggled() -> Seq<char> {
    "Toggled (not saved yet — select Save to persist)."@
}

pub open spec fn status_editing() -> Seq<char> {
    "Editing — Enter to confirm, Esc to cancel."@
}

/// The state of the settings screen.
pub struct SettingsEditor {
    /// The configuration being edited; written only when the user saves.
    pub cfg: Config,
    /// The environment overrides, which the shown values in effect take into account.
    pub env: EnvOverrides,
    /// The selected row.
    pub idx: usize,
    /// The field being edited, if any.
    pub editing: Option<SettingsField>,
    /// The text typed into the field being edited.
    pub edit_buf: Vec<char>,
    /// The status line.
    pub status: String,
}

/// The state of the settings screen, as values.
pub struct EditorView {
    pub cfg: ConfigView,
    pub env: EnvView,
    pub idx: int,
    pub editing: Option<SettingsField>,
    pub buf: Seq<char>,
    pub status: Seq<char>,
}

impl View for SettingsEditor {
    type V = EditorView;

    open spec fn view(&self) -> EditorView {
        EditorView {
            cfg: self.cfg@,
            env: self.env@,
            idx: self.idx as int,
            editing: self.editing,
            buf: self.edit_buf@,
            status: self.status@,
        }
    }
}

/// A state of the screen that can occur: a row is selected, and only a text field
/// is ever edited.
pub open spec fn editor_wf(s: EditorView) -> bool {
    &&& 0 <= s.idx < FIELD_COUNT
    &&& s.editing matches Some(f) ==> is_text_field(f)
}

/// The next state of the screen after a key press, and what the caller does.
///
/// While a field is edited, Enter stores the trimmed text (none where it is
/// empty), Esc drops it, Backspace removes the last character and any other
/// character is typed. Otherwise Up and Down move the selection round the rows,
/// `q` and Esc quit, and Enter acts on the selected row: it toggles whether
/// execution is confirmed, saves, quits, or starts editing a text field with its
/// current value.
pub open spec fn step(s: EditorView, key: Key) -> (EditorView, SettingsAction) {
    match s.editing {
        Some(f) => match key {
            Key::Enter => {
                let v = trim(s.buf);
                let value = if v.len() == 0 {
                    None
                } else {
                    Some(v)
                };
                (
                    EditorView {
                        cfg: with_text_field(s.cfg, f, value),
                        editing: None,
                        buf: Seq::empty(),
                        status: status_updated(),
                        ..s
                    },
                    SettingsAction::Continue,
                )
            },
            Key::Esc => (
                EditorView { editing: None, buf: Seq::empty(), status: status_canceled(), ..s },
                SettingsAction::Continue,
            ),
            Key::Backspace => (
                EditorView {
                    buf: if s.buf.len() > 0 {
                        s.buf.drop_last()
                    } else {
                        s.buf
                    },
                    ..s
                },
                SettingsAction::Continue,
            ),
            Key::Char(c) => (EditorView { buf: s.buf.push(c), ..s }, SettingsAction::Continue),
            _ => (s, SettingsAction::Continue),
        },
        None => match key {
            Key::Up => (
                EditorView {
                    idx: if s.idx == 0 {
                        FIELD_COUNT - 1
                    } else {
                        s.idx - 1
                    },
                    ..s
                },
                SettingsAction::Continue,
            ),
            Key::Down => (
                EditorView { idx: (s.idx + 1) % (FIELD_COUNT as int), ..s },
                SettingsAction::Continue,
            ),
            Key::Char('q') | Key::Esc => (s, SettingsAction::Quit),
            Key::Enter => {
                let f = field_at(s.idx);
                match f {
                    SettingsField::ConfirmExecute => (
                        EditorView {
                            cfg: ConfigView {
                                confirm_execute: Some(
                                    !confirm_in_effect(s.env.confirm_execute, s.cfg.confirm_execute),
                                ),
                                ..s.cfg
                            },
                            status: status_toggled(),
                            ..s
                        },
                        SettingsAction::Continue,
                    ),
                    SettingsField::Save => (s, SettingsAction::Save),
                    SettingsField::Quit => (s, SettingsAction::Quit),
                    _ => (
                        EditorView {
                            editing: Some(f),
                            buf: match text_field(s.cfg, f) {
                                Some(v) => v,
                                None => Seq::empty(),
                            },
                            status: status_editing(),
                            ..s
                        },
                        SettingsAction::Continue,
                    ),
                }
            },
            _ => (s, SettingsAction::Continue),
        },
    }
}

/// The label of a row.
pub open spec fn field_label(f: SettingsField) -> Seq<char> {
    match f {
        SettingsField::DefaultModel => "Default model"@,
        SettingsField::ConfirmExecute => "Confirm execute"@,
        SettingsField::CopilotBin => "Copilot binary"@,
        SettingsField::Shell => "Shell"@,
        SettingsField::Save => "Save"@,
        SettingsField::Quit => "Quit"@,
    }
}

/// The value a row shows when it is not edited: the file's value, or the value
/// in effect where the file sets none.
pub open spec fn field_value(s: EditorView, f: SettingsField) -> Seq<char> {
    match f {
        SettingsField::DefaultModel => string_display(
            s.cfg.default_model,
            chosen_value(s.env.default_model, s.cfg.default_model, "gpt-4.1"@),
        ),
        SettingsField::ConfirmExecute => bool_text(
            match s.cfg.confirm_execute {
                Some(b) => b,
                None => confirm_in_effect(s.env.confirm_execute, s.cfg.confirm_execute),
            },
        ),
        SettingsField::CopilotBin => string_display(
            s.cfg.copilot_bin,
            chosen_value(s.env.copilot_bin, s.cfg.copilot_bin, "copilot"@),
        ),
        SettingsField::Shell => string_display(
            s.cfg.shell,
            chosen_value(s.env.shell, s.cfg.shell, "sh"@),
        ),
        _ => Seq::empty(),
    }
}

/// What a row shows: the typed text and a cursor while it is edited, its value
/// otherwise.
pub open spec fn shown_value(s: EditorView, f: SettingsField) -> Seq<char> {
    if s.editing == Some(f) {
        s.buf + "_"@
    } else {
        field_value(s, f)
    }
}

/// One row of the settings screen.
pub struct SettingsRow {
    pub label: String,
    pub value: String,
    pub selected: bool,
}

impl SettingsEditor {
    /// A state of the screen that can occur.
    pub open spec fn wf(&self) -> bool {
        editor_wf(self@)
    }

    /// The screen as it opens on `cfg`: the first row selected, nothing edited.
    pub fn new(cfg: Config, env: EnvOverrides) -> (e: SettingsEditor)
        ensures
            e.wf(),
            e@.cfg == cfg@,
            e@.env == env@,
            e@.idx == 0,
            e@.editing is None,
            e@.buf.len() == 0,
            e@.status == status_help(),
    {
        SettingsEditor {
            cfg,
            env,
            idx: 0,
            editing: None,
            edit_buf: Vec::new(),
            status: "↑/↓ move · Enter edit/toggle/save · Esc cancel edit · q quit".to_owned(),
        }
    }

    /// Takes a key press.
    pub fn handle_key(&mut self, key: Key) -> (a: SettingsAction)
        requires
            old(self).wf(),
        ensures
            final(self).wf(),
            (final(self)@, a) == step(old(self)@, key),
    {
        match self.editing {
            Some(field) => {
                match key {
                    Key::Enter => {
                        let v = trim_chars(&self.edit_buf);
                        let value = if v.len() == 0 {
                            None
                        } else {
                            Some(string_of(&v))
                        };
                        match field {
                            SettingsField::DefaultModel => {
                                self.cfg.default_model = value;
                            },
                            SettingsField::CopilotBin => {
                                self.cfg.copilot_bin = value;
                            },
                            SettingsField::Shell => {
                                self.cfg.shell = value;
                            },
                            _ => {},
                        }
                        self.editing = None;
                        self.edit_buf = Vec::new();
                        self.status = "Updated (not saved yet — select Save to persist).".to_owned();
                    },
                    Key::Esc => {
                        self.editing = None;
                        self.edit_buf = Vec::new();
                        self.status = "Edit canceled.".to_owned();
                    },
                    Key::Backspace => {
                        self.edit_buf.pop();
                    },
                    Key::Char(c) => {
                        self.edit_buf.push(c);
                    },
                    _ => {},
                }
                SettingsAction::Continue
            },
            None => {
                match key {
                    Key::Up => {
                        self.idx = if self.idx == 0 {
                            FIELD_COUNT - 1
                        } else {
                            self.idx - 1
                        };
                        SettingsAction::Continue
                    },
                    Key::Down => {
                        self.idx = (self.idx + 1) % FIELD_COUNT;
                        SettingsAction::Continue
                    },
                    Key::Char('q') | Key::Esc => SettingsAction::Quit,
                    Key::Enter => {
                        let f = settings_field(self.idx);
                        match f {
                            SettingsField::ConfirmExecute => {
                                let on = confirm_enabled(&self.cfg, &self.env);
                                self.cfg.confirm_execute = Some(!on);
                                self.status =
                                    "Toggled (not saved yet — select Save to persist).".to_owned();
                                SettingsAction::Continue
                            },
                            SettingsField::Save => SettingsAction::Save,
                            SettingsField::Quit => SettingsAction::Quit,
                            _ => {
                                let current = match f {
                                    SettingsField::DefaultModel => &self.cfg.default_model,
                                    SettingsField::CopilotBin => &self.cfg.copilot_bin,
                                    _ => &self.cfg.shell,
                                };
                                let buf = match current {
                                    Some(v) => chars_of(v.as_str()),
                                    None => Vec::new(),
                                };
                                self.editing = Some(f);
                                self.edit_buf = buf;
                                self.status =
                                    "Editing — Enter to confirm, Esc to cancel.".to_owned();
                                SettingsAction::Continue
                            },
                        }
                    },
                    _ => SettingsAction::Continue,
                }
            },
        }
    }

    /// Reports that the configuration was written to `path`.
    pub fn record_saved(&mut self, path: &str)
        ensures
            final(self)@ == (EditorView { status: "Saved to "@ + path@, ..old(self)@ }),
    {
        let mut s = "Saved to ".to_owned();
        push_chars(&mut s, &chars_of(path));
        self.status = s;
    }

    /// Reports that writing the configuration failed, for `reason`.
    pub fn record_save_failed(&mut self, reason: &str)
        ensures
            final(self)@ == (EditorView { status: "Save failed: "@ + reason@, ..old(self)@ }),
    {
        let mut s = "Save failed: ".to_owned();
        push_chars(&mut s, &chars_of(reason));
        self.status = s;
    }

    /// The rows of the screen, top to bottom.
    pub fn rows(&self) -> (r: Vec<SettingsRow>)
        requires
            self.wf(),
        ensures
            r.len() == FIELD_COUNT,
            forall|i: int|
                0 <= i < FIELD_COUNT ==> {
                    &&& (#[trigger] r@[i]).label@ == field_label(field_at(i))
                    &&& r@[i].value@ == shown_value(self@, field_at(i))
                    &&& r@[i].selected == (i == self.idx)
                },
    {
        let mut r: Vec<SettingsRow> = Vec::new();
        let mut i: usize = 0;
        while i < FIELD_COUNT
            invariant
                i <= FIELD_COUNT,
                r.len() == i,
                forall|j: int|
                    0 <= j < i ==> {
                        &&& (#[trigger] r@[j]).label@ == field_label(field_at(j))
                        &&& r@[j].value@ == shown_value(self@, field_at(j))
                        &&& r@[j].selected == (j == self.idx)
                    },
            decreases FIELD_COUNT - i,
        {
            let f = settings_field(i);
            let row = SettingsRow {
                label: self.label_of(f),
                value: self.shown(f),
                selected: i == self.idx,
            };
            r.push(row);
            i = i + 1;
        }
        r
    }

    fn label_of(&self, f: SettingsField) -> (s: String)
        ensures
            s@ == field_label(f),
    {
        match f {
            SettingsField::DefaultModel => "Default model".to_owned(),
            SettingsField::ConfirmExecute => "Confirm execute".to_owned(),
            SettingsField::CopilotBin => "Copilot binary".to_owned(),
            SettingsField::Shell => "Shell".to_owned(),
            SettingsField::Save => "Save".to_owned(),
            SettingsField::Quit => "Quit".to_owned(),
        }
    }

    fn shown(&self, f: SettingsField) -> (s: String)
        ensures
            s@ == shown_value(self@, f),
    {
        if self.editing == Some(f) {
            let mut s = string_of(&self.edit_buf);
            push_chars(&mut s, &chars_of("_"));
            return s;
        }
        match f {
            SettingsField::DefaultModel => {
                let m = default_model(&self.cfg, &self.env);
                cfg_string_display(&self.cfg.default_model, m.as_str())
            },
            SettingsField::ConfirmExecute => {
                cfg_bool_display(self.cfg.confirm_execute, confirm_enabled(&self.cfg, &self.env))
            },
            SettingsField::CopilotBin => {
                let b = copilot_name(&self.cfg, &self.env);
                cfg_string_display(&self.cfg.copilot_bin, b.as_str())
            },
            SettingsField::Shell => {
                let b = shell_name(&self.cfg, &self.env);
                cfg_string_display(&self.cfg.shell, b.as_str())
            },
            _ => String::new(),
        }
    }
}

/// Every key press keeps the screen in a state that can occur.
pub proof fn lemma_step_keeps_wf(s: EditorView, key: Key)
    requires
        editor_wf(s),
    ensures
        editor_wf(step(s, key).0),
{
}

/// Moving down and then up, while nothing is edited, comes back to the state one
/// started from.
pub proof fn lemma_down_then_up(s: EditorView)
    requires
        editor_wf(s),
        s.editing is None,
    ensures
        step(step(s, Key::Down).0, Key::Up).0 == s,
        step(s, Key::Down).1 == SettingsAction::Continue,
        step(step(s, Key::Down).0, Key::Up).1 == SettingsAction::Continue,
{
}

/// Moving up and then down, while nothing is edited, comes back to the state one
/// started from.
pub proof fn lemma_up_then_down(s: EditorView)
    requires
        editor_wf(s),
        s.editing is None,
    ensures
        step(step(s, Key::Up).0, Key::Down).0 == s,
{
}

/// While a field is edited, no key but Enter changes the configuration, and no
/// key saves or quits.
pub proof fn lemma_editing_keeps_config(s: EditorView, key: Key)
    requires
        s.editing is Some,
        key != Key::Enter,
    ensures
        step(s, key).0.cfg == s.cfg,
        step(s, key).1 == SettingsAction::Continue,
{
}

/// Esc while editing drops the typed text and leaves the configuration as it was.
pub proof fn lemma_cancel_edit(s: EditorView)
    requires
        s.editing is Some,
    ensures
        step(s, Key::Esc).0.cfg == s.cfg,
        step(s, Key::Esc).0.editing is None,
        step(s, Key::Esc).0.buf.len() == 0,
{
}

/// Only Enter on the Save row asks for the configuration to be written.
pub proof fn lemma_save_only_on_save_row(s: EditorView, key: Key)
    requires
        editor_wf(s),
    ensures
        step(s, key).1 == SettingsAction::Save <==> (s.editing is None && key == Key::Enter
            && field_at(s.idx) == SettingsField::Save),
{
}

/// The screen is left only by `q` or Esc while nothing is edited, or by Enter on
/// the Quit row.
pub proof fn lemma_quit_keys(s: EditorView, key: Key)
    requires
        editor_wf(s),
    ensures
        step(s, key).1 == SettingsAction::Quit <==> (s.editing is None && (key == Key::Char('q')
            || key == Key::Esc || (key == Key::Enter && field_at(s.idx) == SettingsField::Quit))),
{
}

/// Toggling the confirmation row flips whether execution is confirmed, where the
/// environment does not decide it.
pub proof fn lemma_toggle_flips(s: EditorView)
    requires
        editor_wf(s),
        s.editing is None,
        field_at(s.idx) == SettingsField::ConfirmExecute,
        !(s.env.confirm_execute matches Some(e) && (e == "false"@ || e == "0"@ || e == "no"@
            || e == "NO"@ || e == "true"@ || e == "1"@ || e == "yes"@ || e == "YES"@)),
    ensures
        confirm_in_effect(s.env.confirm_execute, step(s, Key::Enter).0.cfg.confirm_execute)
            == !confirm_in_effect(s.env.confirm_execute, s.cfg.confirm_execute),
{
}

/// Opening a text field for editing and confirming it at once leaves the
/// configuration as it was, where the field is unset or holds a non-empty,
/// already trimmed text.
pub proof fn lemma_edit_and_confirm_keeps(s: EditorView)
    requires
        editor_wf(s),
        s.editing is None,
        is_text_field(field_at(s.idx)),
        text_field(s.cfg, field_at(s.idx)) matches Some(v) ==> v.len() > 0 && trim(v) == v,
    ensures
        step(step(s, Key::Enter).0, Key::Enter).0.cfg == s.cfg,
{
    let f = field_at(s.idx);
    let t = step(s, Key::Enter).0;
    assert(t.editing == Some(f));
    if text_field(s.cfg, f) is None {
        assert(t.buf.len() == 0);
        assert(trim(t.buf).len() == 0);
    }
}

/// The text a setting gives the edit buffer: its value, or nothing where unset.
pub open spec fn buffer_of(o: Option<Seq<char>>) -> Seq<char> {
    match o {
        Some(v) => v,
        None => Seq::empty(),
    }
}

/// Each text row edits its own setting: Enter on row 0 (default model), row 2
/// (Copilot binary) or row 3 (shell) loads that setting into the edit buffer, and
/// Enter again, whatever was typed, sets that setting to the trimmed text (or
/// unsets it where the text is blank) and leaves every other setting as it was.
pub proof fn lemma_text_rows_edit_own_setting(s: EditorView, b: Seq<char>)
    requires
        editor_wf(s),
        s.editing is None,
        s.idx == 0 || s.idx == 2 || s.idx == 3,
    ensures
        ({
            let t = step(s, Key::Enter).0;
            let r = step((EditorView { buf: b, ..t }), Key::Enter).0.cfg;
            let v = if trim(b).len() == 0 {
                None
            } else {
                Some(trim(b))
            };
            &&& step(s, Key::Enter).1 == SettingsAction::Continue
            &&& t.cfg == s.cfg
            &&& r.confirm_execute == s.cfg.confirm_execute
            &&& s.idx == 0 ==> {
                &&& t.buf == buffer_of(s.cfg.default_model)
                &&& r.default_model == v
                &&& r.copilot_bin == s.cfg.copilot_bin
                &&& r.shell == s.cfg.shell
            }
            &&& s.idx == 2 ==> {
                &&& t.buf == buffer_of(s.cfg.copilot_bin)
                &&& r.copilot_bin == v
                &&& r.default_model == s.cfg.default_model
                &&& r.shell == s.cfg.shell
            }
            &&& s.idx == 3 ==> {
                &&& t.buf == buffer_of(s.cfg.shell)
                &&& r.shell == v
                &&& r.default_model == s.cfg.default_model
                &&& r.copilot_bin == s.cfg.copilot_bin
            }
        }),
{
}

/// What each row of the screen is, top to bottom: Default model, Confirm
/// execute, Copilot binary, Shell, Save and Quit. A text row shows the file's
/// value where it is set and not blank, else the environment's where that is set
/// and not blank, else the file's, else the default (`gpt-4.1`, `copilot`,
/// `sh`); the confirmation row shows `true` or `false`; Save and Quit show
/// nothing, and Enter on them saves and quits.
pub proof fn lemma_rows(s: EditorView)
    requires
        editor_wf(s),
        s.editing is None,
    ensures
        field_label(field_at(0)) == "Default model"@,
        field_label(field_at(1)) == "Confirm execute"@,
        field_label(field_at(2)) == "Copilot binary"@,
        field_label(field_at(3)) == "Shell"@,
        field_label(field_at(4)) == "Save"@,
        field_label(field_at(5)) == "Quit"@,
        shown_value(s, field_at(0)) == if s.cfg.default_model is Some && !is_blank(
            s.cfg.default_model->0,
        ) {
            s.cfg.default_model->0
        } else if s.env.default_model is Some && !is_blank(s.env.default_model->0) {
            s.env.default_model->0
        } else if s.cfg.default_model is Some {
            s.cfg.default_model->0
        } else {
            "gpt-4.1"@
        },
        shown_value(s, field_at(2)) == if s.cfg.copilot_bin is Some && !is_blank(
            s.cfg.copilot_bin->0,
        ) {
            s.cfg.copilot_bin->0
        } else if s.env.copilot_bin is Some && !is_blank(s.env.copilot_bin->0) {
            s.env.copilot_bin->0
        } else if s.cfg.copilot_bin is Some {
            s.cfg.copilot_bin->0
        } else {
            "copilot"@
        },
        shown_value(s, field_at(3)) == if s.cfg.shell is Some && !is_blank(s.cfg.shell->0) {
            s.cfg.shell->0
        } else if s.env.shell is Some && !is_blank(s.env.shell->0) {
            s.env.shell->0
        } else if s.cfg.shell is Some {
            s.cfg.shell->0
        } else {
            "sh"@
        },
        shown_value(s, field_at(1)) == if (match s.cfg.confirm_execute {
            Some(b) => b,
            None => confirm_in_effect(s.env.confirm_execute, None),
        }) {
            "true"@
        } else {
            "false"@
        },
        shown_value(s, field_at(4)).len() == 0,
        shown_value(s, field_at(5)).len() == 0,
        s.idx == 4 ==> step(s, Key::Enter).1 == SettingsAction::Save,
        s.idx == 5 ==> step(s, Key::Enter).1 == SettingsAction::Quit,
{
}

/// The status line after each kind of key press: a toggle, an opened field, a
/// confirmed edit and a canceled edit each say so.
pub proof fn lemma_status_lines(s: EditorView)
    requires
        editor_wf(s),
    ensures
        s.editing is None && s.idx == 1 ==> step(s, Key::Enter).0.status
            == "Toggled (not saved yet — select Save to persist)."@,
        s.editing is None && (s.idx == 0 || s.idx == 2 || s.idx == 3) ==> step(s, Key::Enter).0.status
            == "Editing — Enter to confirm, Esc to cancel."@,
        s.editing is Some ==> step(s, Key::Enter).0.status
            == "Updated (not saved yet — select Save to persist)."@,
        s.editing is Some ==> step(s, Key::Esc).0.status == "Edit canceled."@,
{
}

} // verus!
