//! The values in effect: environment overrides before file values, file values
//! before the built-in defaults.
use vstd::prelude::*;
use crate::config::{opt_view, Config};
use crate::text::{blank_str, chars_eq, chars_of, is_blank};

verus! {

/// The environment variables that override the configuration file, as read:
/// `COPILOT_DEFAULT_MODEL`, `COPILOT_CS_CONFIRM_EXECUTE`, `COPILOT_BIN` and
/// `COPILOT_SHELL`; `None` where a variable is unset or not Unicode.
#[derive(Clone, Debug)]
pub struct EnvOverrides {
    pub default_model: Option<String>,
    pub confirm_execute: Option<String>,
    pub copilot_bin: Option<String>,
    pub shell: Option<String>,
}

/// The environment overrides, as texts.
pub struct EnvView {
    pub default_model: Option<Seq<char>>,
    pub confirm_execute: Option<Seq<char>>,
    pub copilot_bin: Option<Seq<char>>,
    pub shell: Option<Seq<char>>,
}

impl View for EnvOverrides {
    type V = EnvView;

    open spec fn view(&self) -> EnvView {
        EnvView {
            default_model: opt_view(self.default_model),
            confirm_execute: opt_view(self.confirm_execute),
            copilot_bin: opt_view(self.copilot_bin),
            shell: opt_view(self.shell),
        }
    }
}

impl EnvOverrides {
    /// No variable set.
    pub fn none() -> (e: EnvOverrides)
        ensures
            e.default_model is None,
            e.confirm_execute is None,
            e.copilot_bin is None,
            e.shell is None,
    {
        EnvOverrides { default_model: None, confirm_execute: None, copilot_bin: None, shell: None }
    }
}

/// The value in effect: the environment's where it is set and not blank, else the
/// file's where it is set, else the fallback.
pub open spec fn chosen_value(
    env_value: Option<Seq<char>>,
    value: Option<Seq<char>>,
    fallback: Seq<char>,
) -> Seq<char> {
    match env_value {
        Some(e) if !is_blank(e) => e,
        _ => match value {
            Some(v) => v,
            None => fallback,
        },
    }
}

/// The value in effect for one setting.
pub fn env_or_config(env_value: Option<String>, value: Option<String>, fallback: &str) -> (r: String)
    ensures
        r@ == chosen_value(opt_view(env_value), opt_view(value), fallback@),
{
    match env_value {
        Some(e) => {
            if !blank_str(e.as_str()) {
                return e;
            }
        },
        None => {},
    }
    match value {
        Some(v) => v,
        None => fallback.to_owned(),
    }
}

/// The model in effect (`gpt-4.1` where nothing sets one).
pub fn default_model(c: &Config, env: &EnvOverrides) -> (r: String)
    ensures
        r@ == chosen_value(opt_view(env.default_model), c@.default_model, "gpt-4.1"@),
{
    env_or_config(env.default_model.clone(), c.default_model.clone(), "gpt-4.1")
}

/// The Copilot CLI executable in effect (`copilot` where nothing sets one).
pub fn copilot_name(c: &Config, env: &EnvOverrides) -> (r: String)
    ensures
        r@ == chosen_value(opt_view(env.copilot_bin), c@.copilot_bin, "copilot"@),
{
    env_or_config(env.copilot_bin.clone(), c.copilot_bin.clone(), "copilot")
}

/// The shell in effect (`sh` where nothing sets one).
pub fn shell_name(c: &Config, env: &EnvOverrides) -> (r: String)
    ensures
        r@ == chosen_value(opt_view(env.shell), c@.shell, "sh"@),
{
    env_or_config(env.shell.clone(), c.shell.clone(), "sh")
}

/// Whether execution asks for confirmation: the environment decides where it holds
/// one of `false`, `0`, `no`, `NO` (no) or `true`, `1`, `yes`, `YES` (yes); else the
/// file decides; else it does.
pub open spec fn confirm_in_effect(env_value: Option<Seq<char>>, value: Option<bool>) -> bool {
    let file_or_default = match value {
        Some(b) => b,
        None => true,
    };
    match env_value {
        Some(e) => if e == "false"@ || e == "0"@ || e == "no"@ || e == "NO"@ {
            false
        } else if e == "true"@ || e == "1"@ || e == "yes"@ || e == "YES"@ {
            true
        } else {
            file_or_default
        },
        None => file_or_default,
    }
}

/// Whether execution asks for confirmation.
pub fn confirm_enabled(c: &Config, env: &EnvOverrides) -> (b: bool)
    ensures
        b == confirm_in_effect(opt_view(env.confirm_execute), c@.confirm_execute),
{
    let file_or_default = match c.confirm_execute {
        Some(b) => b,
        None => true,
    };
    match &env.confirm_execute {
        Some(e) => {
            let v = chars_of(e.as_str());
            if chars_eq(&v, "false") || chars_eq(&v, "0") || chars_eq(&v, "no") || chars_eq(&v, "NO") {
                false
            } else if chars_eq(&v, "true") || chars_eq(&v, "1") || chars_eq(&v, "yes") || chars_eq(
                &v,
                "YES",
            ) {
                true
            } else {
                file_or_default
            }
        },
        None => file_or_default,
    }
}

/// What the settings screen shows for a text setting: the file's value where it
/// is set and not blank, else the value in effect.
pub open spec fn string_display(v: Option<Seq<char>>, fallback: Seq<char>) -> Seq<char> {
    match v {
        Some(s) if !is_blank(s) => s,
        _ => fallback,
    }
}

/// What the settings screen shows for a text setting.
pub fn cfg_string_display(v: &Option<String>, fallback: &str) -> (r: String)
    ensures
        r@ == string_display(opt_view(*v), fallback@),
{
    match v {
        Some(s) => {
            if !blank_str(s.as_str()) {
                return s.clone();
            }
        },
        None => {},
    }
    fallback.to_owned()
}

/// The word for a truth value.
pub open spec fn bool_text(b: bool) -> Seq<char> {
    if b {
        "true"@
    } else {
        "false"@
    }
}

/// What the settings screen shows for `confirm_execute`: the file's value where it
/// is set, else the value in effect.
pub fn cfg_bool_display(v: Option<bool>, fallback: bool) -> (r: String)
    ensures
        r@ == bool_text(
            match v {
                Some(b) => b,
                None => fallback,
            },
        ),
{
    let b = match v {
        Some(b) => b,
        None => fallback,
    };
    if b {
        "true".to_owned()
    } else {
        "false".to_owned()
    }
}

/// An environment override that is set and not blank is the value in effect,
/// whatever the file holds.
pub proof fn lemma_env_precedes_config(e: Seq<char>, value: Option<Seq<char>>, fallback: Seq<char>)
    requires
        !is_blank(e),
    ensures
        chosen_value(Some(e), value, fallback) == e,
{
}

/// Without an override, the file's value is in effect where it is set, and the
/// default otherwise.
pub proof fn lemma_file_precedes_default(
    env_value: Option<Seq<char>>,
    value: Option<Seq<char>>,
    fallback: Seq<char>,
)
    requires
        env_value matches Some(e) ==> is_blank(e),
    ensures
        chosen_value(env_value, value, fallback) == match value {
            Some(v) => v,
            None => fallback,
        },
{
}

/// Execution is confirmed by default; `confirm_execute=false` in the file, or
/// `false` in the environment, switches that off, and the environment wins over
/// the file.
pub proof fn lemma_confirm_defaults(value: Option<bool>)
    ensures
        confirm_in_effect(None, None),
        !confirm_in_effect(None, Some(false)),
        !confirm_in_effect(Some("false"@), value),
        confirm_in_effect(Some("true"@), value),
{
    reveal_strlit("false");
    reveal_strlit("true");
    reveal_strlit("0");
    reveal_strlit("no");
    reveal_strlit("NO");
    assert("true"@.len() == 4);
    assert("false"@.len() == 5);
    assert("0"@.len() == 1);
    assert("no"@.len() == 2);
    assert("NO"@.len() == 2);
}

/// The environment override decides alone where it is one of the eight words:
/// `false`, `0`, `no` and `NO` switch confirmation off, `true`, `1`, `yes` and `YES`
/// switch it on, whatever the file holds. Any other override leaves the decision
/// to the file, and without a file value execution is confirmed.
pub proof fn lemma_confirm_env_words(e: Seq<char>, value: Option<bool>)
    ensures
        e == "false"@ || e == "0"@ || e == "no"@ || e == "NO"@ ==> !confirm_in_effect(Some(e), value),
        e == "true"@ || e == "1"@ || e == "yes"@ || e == "YES"@ ==> confirm_in_effect(Some(e), value),
        !(e == "false"@ || e == "0"@ || e == "no"@ || e == "NO"@ || e == "true"@ || e == "1"@ || e
            == "yes"@ || e == "YES"@) ==> confirm_in_effect(Some(e), value) == confirm_in_effect(
            None,
            value,
        ),
        confirm_in_effect(None, value) == (value != Some(false)),
{
    reveal_strlit("false");
    reveal_strlit("true");
    reveal_strlit("0");
    reveal_strlit("1");
    reveal_strlit("no");
    reveal_strlit("NO");
    reveal_strlit("yes");
    reveal_strlit("YES");
    assert("true"@.len() == 4);
    assert("false"@.len() == 5);
    assert("0"@.len() == 1);
    assert("1"@.len() == 1);
    assert("no"@.len() == 2);
    assert("NO"@.len() == 2);
    assert("yes"@.len() == 3);
    assert("YES"@.len() == 3);
    assert("0"@ != "1"@) by {
        assert("0"@[0] != "1"@[0]);
    }
}

} // verus!
