//! What becomes of a suggested command: the decision that follows the action
//! menu and the confirmation step.
use vstd::prelude::*;
use crate::config::ConfigView;
use crate::keys::{confirm_step_for, confirmed, picker_choice, Key, PickerAction};
use crate::lookup::str_views;
use crate::prompt::explain_request;
use crate::text::trim;
use crate::values::confirm_in_effect;

verus! {

/// What the program does with a suggested command.
#[derive(Clone, Debug, PartialEq, Eq)]
pub enum SuggestAction {
    /// Run the configured shell with these arguments.
    Run(Vec<String>),
    /// Copy the command to the clipboard.
    Copy,
    /// Ask Copilot to explain the command, with these words.
    Explain(Vec<String>),
    /// Do nothing (and say so).
    Cancel,
}

/// A `SuggestAction`, as values.
pub enum SuggestPlan {
    Run(Seq<Seq<char>>),
    Copy,
    Explain(Seq<Seq<char>>),
    Cancel,
}

impl View for SuggestAction {
    type V = SuggestPlan;

    open spec fn view(&self) -> SuggestPlan {
        match self {
            SuggestAction::Run(args) => SuggestPlan::Run(str_views(args@)),
            SuggestAction::Copy => SuggestPlan::Copy,
            SuggestAction::Explain(words) => SuggestPlan::Explain(str_views(words@)),
            SuggestAction::Cancel => SuggestPlan::Cancel,
        }
    }
}

/// What follows the choice on the action menu for the command `s`: executing runs
/// the shell with `-c s` where execution was confirmed and cancels otherwise;
/// copying copies; explaining asks for an explanation of `s`; quitting cancels.
pub open spec fn plan_for(choice: PickerAction, go_ahead: bool, s: Seq<char>) -> SuggestPlan {
    match choice {
        PickerAction::Execute => if go_ahead {
            SuggestPlan::Run(seq!["-c"@, s])
        } else {
            SuggestPlan::Cancel
        },
        PickerAction::Copy => SuggestPlan::Copy,
        PickerAction::Explain => SuggestPlan::Explain(seq!["Explain this command: "@ + s]),
        PickerAction::Quit => SuggestPlan::Cancel,
    }
}

/// What follows the choice on the action menu, `confirmed` being the outcome of
/// the confirmation step (which is taken only for executing).
pub fn suggest_action(choice: PickerAction, confirmed: bool, suggestion: &str) -> (r: SuggestAction)
    ensures
        r@ == plan_for(choice, confirmed, suggestion@),
{
    match choice {
        PickerAction::Execute => {
            if confirmed {
                let args = vec!["-c".to_owned(), suggestion.to_owned()];
                assert(str_views(args@) =~= seq!["-c"@, suggestion@]);
                SuggestAction::Run(args)
            } else {
                SuggestAction::Cancel
            }
        },
        PickerAction::Copy => SuggestAction::Copy,
        PickerAction::Explain => SuggestAction::Explain(explain_request(suggestion)),
        PickerAction::Quit => SuggestAction::Cancel,
    }
}

/// The whole suggest flow: Copilot's answer `answer`, the key that decided the
/// action menu, the configuration and the environment's confirmation value,
/// whether there is a terminal to ask on, and the reply to the question where it
/// was asked. `None` where Copilot suggested nothing, or the key chooses nothing.
pub open spec fn suggest_flow(
    answer: Seq<char>,
    key: Key,
    c: ConfigView,
    env_confirm: Option<Seq<char>>,
    interactive: bool,
    reply: Option<Key>,
) -> Option<SuggestPlan> {
    let s = trim(answer);
    if s.len() == 0 {
        None
    } else {
        match picker_choice(key) {
            Some(choice) => Some(
                plan_for(
                    choice,
                    confirmed(confirm_step_for(env_confirm, c.confirm_execute, interactive), reply),
                    s,
                ),
            ),
            None => None,
        }
    }
}

/// A suggested command is never run by itself: the shell runs only on a non-empty
/// suggestion, after Enter on the action menu, and after a yes to the
/// confirmation question unless confirmation is switched off; and it then runs
/// with `-c` and the trimmed suggestion, nothing else.
pub proof fn lemma_run_only_after_enter_and_yes(
    answer: Seq<char>,
    key: Key,
    c: ConfigView,
    env_confirm: Option<Seq<char>>,
    interactive: bool,
    reply: Option<Key>,
)
    ensures
        (suggest_flow(answer, key, c, env_confirm, interactive, reply) matches Some(
            SuggestPlan::Run(_),
        )) <==> ({
            &&& trim(answer).len() > 0
            &&& key == Key::Enter
            &&& (!confirm_in_effect(env_confirm, c.confirm_execute) || (interactive && (reply
                == Some(Key::Char('y')) || reply == Some(Key::Char('Y')))))
        }),
        suggest_flow(answer, key, c, env_confirm, interactive, reply) matches Some(
            SuggestPlan::Run(args),
        ) ==> args == seq!["-c"@, trim(answer)],
{
}

/// Only executing depends on the confirmation: whatever its outcome, Copy copies,
/// Explain asks for an explanation of the command and Quit cancels; Execute runs
/// the shell with `-c` and the command on a yes and cancels on a no.
pub proof fn lemma_plan_for_choices(go_ahead: bool, s: Seq<char>)
    ensures
        plan_for(PickerAction::Copy, go_ahead, s) == SuggestPlan::Copy,
        plan_for(PickerAction::Explain, go_ahead, s) == SuggestPlan::Explain(
            seq!["Explain this command: "@ + s],
        ),
        plan_for(PickerAction::Quit, go_ahead, s) == SuggestPlan::Cancel,
        plan_for(PickerAction::Execute, true, s) == SuggestPlan::Run(seq!["-c"@, s]),
        plan_for(PickerAction::Execute, false, s) == SuggestPlan::Cancel,
{
}

/// On a non-empty suggestion, `c` copies, `x` asks for an explanation of the
/// trimmed command and `q` or Esc cancel, whatever the configuration, the
/// environment, the terminal and the reply; a key other than these and Enter
/// decides nothing.
pub proof fn lemma_menu_keys(
    answer: Seq<char>,
    key: Key,
    c: ConfigView,
    env_confirm: Option<Seq<char>>,
    interactive: bool,
    reply: Option<Key>,
)
    requires
        trim(answer).len() > 0,
    ensures
        key == Key::Char('c') ==> suggest_flow(answer, key, c, env_confirm, interactive, reply)
            == Some(SuggestPlan::Copy),
        key == Key::Char('x') ==> suggest_flow(answer, key, c, env_confirm, interactive, reply)
            == Some(SuggestPlan::Explain(seq!["Explain this command: "@ + trim(answer)])),
        key == Key::Char('q') || key == Key::Esc ==> suggest_flow(
            answer,
            key,
            c,
            env_confirm,
            interactive,
            reply,
        ) == Some(SuggestPlan::Cancel),
        !(key == Key::Enter || key == Key::Char('c') || key == Key::Char('x') || key == Key::Char(
            'q',
        ) || key == Key::Esc) ==> suggest_flow(answer, key, c, env_confirm, interactive, reply)
            is None,
{
}

/// Copilot's answer that is blank suggests nothing, whatever key follows.
pub proof fn lemma_blank_answer_does_nothing(
    answer: Seq<char>,
    key: Key,
    c: ConfigView,
    env_confirm: Option<Seq<char>>,
    interactive: bool,
    reply: Option<Key>,
)
    requires
        trim(answer).len() == 0,
    ensures
        suggest_flow(answer, key, c, env_confirm, interactive, reply) is None,
{
}

} // verus!
