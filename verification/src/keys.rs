//! Key presses and what they choose on the suggestion and confirmation screens.
use vstd::prelude::*;
use crate::config::Config;
use crate::values::{confirm_enabled, confirm_in_effect, EnvOverrides};
use crate::config::opt_view;

verus! {

/// A pressed key, as far as the screens tell keys apart.
#[derive(Clone, Copy, Debug, PartialEq, Eq, Structural)]
pub enum Key {
    Enter,
    Esc,
    Backspace,
    Up,
    Down,
    Char(char),
    Other,
}

/// What the user chose for a suggested command.
#[derive(Clone, Copy, Debug, PartialEq, Eq, Structural)]
pub enum PickerAction {
    Execute,
    Copy,
    Explain,
    Quit,
}

/// The choice a key makes on the suggestion screen: Enter executes, `c` copies,
/// `x` explains, `q` or Esc quits; any other key chooses nothing.
pub open spec fn picker_choice(key: Key) -> Option<PickerAction> {
    match key {
        Key::Enter => Some(PickerAction::Execute),
        Key::Char('c') => Some(PickerAction::Copy),
        Key::Char('x') => Some(PickerAction::Explain),
        Key::Char('q') | Key::Esc => Some(PickerAction::Quit),
        _ => None,
    }
}

/// The choice a key makes on the suggestion screen.
pub fn picker_action(key: Key) -> (r: Option<PickerAction>)
    ensures
        r == picker_choice(key),
{
    match key {
        Key::Enter => Some(PickerAction::Execute),
        Key::Char('c') => Some(PickerAction::Copy),
        Key::Char('x') => Some(PickerAction::Explain),
        Key::Char('q') | Key::Esc => Some(PickerAction::Quit),
        _ => None,
    }
}

/// Whether the key answers the confirmation question with yes (`y` or `Y`).
pub fn confirm_answer(key: Key) -> (b: bool)
    ensures
        b == (key == Key::Char('y') || key == Key::Char('Y')),
{
    match key {
        Key::Char('y') | Key::Char('Y') => true,
        _ => false,
    }
}

/// How execution of a suggested command is confirmed.
#[derive(Clone, Copy, Debug, PartialEq, Eq, Structural)]
pub enum ConfirmStep {
    /// Confirmation is switched off: execute.
    Proceed,
    /// No terminal to ask on: do not execute.
    Refuse,
    /// Ask, and execute on a yes.
    Ask,
}

/// How execution is confirmed: not at all where confirmation is switched off,
/// refused where there is no terminal to ask on, asked otherwise.
pub open spec fn confirm_step_for(
    env_value: Option<Seq<char>>,
    value: Option<bool>,
    interactive: bool,
) -> ConfirmStep {
    if !confirm_in_effect(env_value, value) {
        ConfirmStep::Proceed
    } else if !interactive {
        ConfirmStep::Refuse
    } else {
        ConfirmStep::Ask
    }
}

/// Whether execution goes ahead after the confirmation step, `reply` being the key
/// pressed where the user was asked.
pub open spec fn confirmed(step: ConfirmStep, reply: Option<Key>) -> bool {
    match step {
        ConfirmStep::Proceed => true,
        ConfirmStep::Refuse => false,
        ConfirmStep::Ask => reply == Some(Key::Char('y')) || reply == Some(Key::Char('Y')),
    }
}

/// Whether execution goes ahead after the confirmation step.
pub fn execution_confirmed(step: ConfirmStep, reply: Option<Key>) -> (b: bool)
    ensures
        b == confirmed(step, reply),
{
    match step {
        ConfirmStep::Proceed => true,
        ConfirmStep::Refuse => false,
        ConfirmStep::Ask => match reply {
            Some(k) => confirm_answer(k),
            None => false,
        },
    }
}

/// How execution is confirmed, given whether standard input and output are
/// terminals.
pub fn confirmation_step(c: &Config, env: &EnvOverrides, interactive: bool) -> (r: ConfirmStep)
    ensures
        r == confirm_step_for(opt_view(env.confirm_execute), c@.confirm_execute, interactive),
{
    if !confirm_enabled(c, env) {
        ConfirmStep::Proceed
    } else if !interactive {
        ConfirmStep::Refuse
    } else {
        ConfirmStep::Ask
    }
}

/// A suggested command is executed only on Enter: no other key chooses to
/// execute it.
pub proof fn lemma_execute_only_on_enter(key: Key)
    ensures
        picker_choice(key) == Some(PickerAction::Execute) <==> key == Key::Enter,
{
}

} // verus!
