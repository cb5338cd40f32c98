//! The `doctor` check: which requirements are met, and its report.
use vstd::prelude::*;
use crate::config::{opt_view, Config};
use crate::lookup::{
    clipboard_available, clipboard_tools_spec, copilot_in_effect, lookup, resolve_copilot,
    resolve_shell, shell_in_effect, str_views,
};
use crate::text::{chars_of, push_chars};
use crate::values::EnvOverrides;

verus! {

/// What the `doctor` check found.
#[derive(Clone, Debug, PartialEq, Eq)]
pub struct DoctorReport {
    /// Where the Copilot CLI is, if it was found.
    pub copilot: Option<String>,
    /// Whether some clipboard can be used.
    pub clipboard: bool,
    /// Whether standard input, output and error are all terminals.
    pub terminal: bool,
    /// Where the shell is, if it was found.
    pub shell: Option<String>,
}

/// The findings of the `doctor` check, given the value of `PATH`, the paths known
/// to be regular files, whether the system clipboard could be opened and whether
/// the standard streams are terminals.
pub fn doctor_report(
    c: &Config,
    env: &EnvOverrides,
    path_var: &Option<String>,
    files: &Vec<String>,
    clipboard_opens: bool,
    terminal: bool,
) -> (r: DoctorReport)
    ensures
        opt_view(r.copilot) == lookup(copilot_in_effect(c@, *env), opt_view(*path_var), str_views(files@)),
        opt_view(r.shell) == lookup(shell_in_effect(c@, *env), opt_view(*path_var), str_views(files@)),
        r.clipboard == (clipboard_opens || exists|i: int|
            0 <= i < 3 && #[trigger] lookup(
                clipboard_tools_spec()[i],
                opt_view(*path_var),
                str_views(files@),
            ) is Some),
        r.terminal == terminal,
{
    let copilot = match resolve_copilot(c, env, path_var, files) {
        Ok(p) => Some(p),
        Err(_) => None,
    };
    DoctorReport {
        copilot,
        clipboard: clipboard_available(clipboard_opens, path_var, files),
        terminal,
        shell: resolve_shell(c, env, path_var, files),
    }
}

/// Whether every requirement is met.
pub open spec fn all_met(r: DoctorReport) -> bool {
    r.copilot is Some && r.shell is Some && r.clipboard && r.terminal
}

/// Whether every requirement is met.
pub fn doctor_passed(r: &DoctorReport) -> (b: bool)
    ensures
        b == all_met(*r),
{
    r.copilot.is_some() && r.shell.is_some() && r.clipboard && r.terminal
}

/// `OK` and the path in brackets for a found executable, `MISSING` otherwise.
pub open spec fn found_text(p: Option<Seq<char>>) -> Seq<char> {
    match p {
        Some(p) => "OK"@ + " ("@ + p + ")"@,
        None => "MISSING"@,
    }
}

/// `OK` or `MISSING`.
pub open spec fn ok_text(b: bool) -> Seq<char> {
    if b {
        "OK"@
    } else {
        "MISSING"@
    }
}

/// One line where `b` holds, none otherwise.
pub open spec fn line_if(b: bool, l: Seq<char>) -> Seq<Seq<char>> {
    if b {
        seq![l]
    } else {
        Seq::empty()
    }
}

/// The lines of the `doctor` report: the state of each requirement, then a hint for
/// each one that is not met. `shell` is the name of the shell in effect.
pub open spec fn report_lines(r: DoctorReport, shell: Seq<char>) -> Seq<Seq<char>> {
    seq![
        "oldpilot doctor"@,
        "  copilot: "@ + found_text(opt_view(r.copilot)),
        "  clipboard: "@ + ok_text(r.clipboard),
        "  shell: "@ + found_text(opt_view(r.shell)),
        "  terminal: "@ + if r.terminal {
            "interactive"@
        } else {
            "non-interactive"@
        },
    ] + line_if(r.copilot is None, "  fix: install Copilot CLI with `npm install -g @github/copilot`"@)
        + line_if(!r.clipboard, "  fix: install clipboard support or pbcopy/wl-copy/xclip"@)
        + line_if(r.shell is None, "  fix: install the configured shell `"@ + shell + "` or set COPILOT_SHELL"@)
        + line_if(!r.terminal, "  fix: run interactive commands from a terminal"@)
}

fn found_line(head: &str, p: &Option<String>) -> (s: String)
    ensures
        s@ == head@ + found_text(opt_view(*p)),
{
    let mut s = head.to_owned();
    match p {
        Some(p) => {
            push_chars(&mut s, &chars_of("OK ("));
            push_chars(&mut s, &chars_of(p.as_str()));
            push_chars(&mut s, &chars_of(")"));
            proof {
                reveal_strlit("OK (");
                reveal_strlit("OK");
                reveal_strlit(" (");
                assert("OK ("@ =~= "OK"@ + " ("@);
            }
            assert(s@ =~= head@ + found_text(opt_view(Some(*p))));
        },
        None => {
            push_chars(&mut s, &chars_of("MISSING"));
        },
    }
    s
}

fn text_line(head: &str, tail: &str) -> (s: String)
    ensures
        s@ == head@ + tail@,
{
    let mut s = head.to_owned();
    push_chars(&mut s, &chars_of(tail));
    s
}

/// The lines of the `doctor` report.
pub fn doctor_lines(r: &DoctorReport, shell: &str) -> (v: Vec<String>)
    ensures
        str_views(v@) == report_lines(*r, shell@),
{
    let mut v: Vec<String> = Vec::new();
    v.push("oldpilot doctor".to_owned());
    v.push(found_line("  copilot: ", &r.copilot));
    v.push(text_line("  clipboard: ", if r.clipboard { "OK" } else { "MISSING" }));
    v.push(found_line("  shell: ", &r.shell));
    v.push(text_line("  terminal: ", if r.terminal { "interactive" } else { "non-interactive" }));
    let ghost base = str_views(v@);
    assert(base =~= seq![
        "oldpilot doctor"@,
        "  copilot: "@ + found_text(opt_view(r.copilot)),
        "  clipboard: "@ + ok_text(r.clipboard),
        "  shell: "@ + found_text(opt_view(r.shell)),
        "  terminal: "@ + if r.terminal {
            "interactive"@
        } else {
            "non-interactive"@
        },
    ]);
    if r.copilot.is_none() {
        v.push("  fix: install Copilot CLI with `npm install -g @github/copilot`".to_owned());
    }
    let ghost a1 = str_views(v@);
    assert(a1 =~= base + line_if(r.copilot is None, "  fix: install Copilot CLI with `npm install -g @github/copilot`"@));
    if !r.clipboard {
        v.push("  fix: install clipboard support or pbcopy/wl-copy/xclip".to_owned());
    }
    let ghost a2 = str_views(v@);
    assert(a2 =~= a1 + line_if(!r.clipboard, "  fix: install clipboard support or pbcopy/wl-copy/xclip"@));
    if r.shell.is_none() {
        let mut s = text_line("  fix: install the configured shell `", shell);
        push_chars(&mut s, &chars_of("` or set COPILOT_SHELL"));
        v.push(s);
    }
    let ghost a3 = str_views(v@);
    assert(a3 =~= a2 + line_if(r.shell is None, "  fix: install the configured shell `"@ + shell@ + "` or set COPILOT_SHELL"@));
    if !r.terminal {
        v.push("  fix: run interactive commands from a terminal".to_owned());
    }
    assert(str_views(v@) =~= a3 + line_if(!r.terminal, "  fix: run interactive commands from a terminal"@));
    v
}

/// The message of the error that a failed check ends with.
pub fn doctor_failure_message() -> (s: String)
    ensures
        s@ == "doctor found one or more unmet requirements"@,
{
    "doctor found one or more unmet requirements".to_owned()
}

/// The check passes exactly when its report holds no hint to fix anything.
pub proof fn lemma_passed_iff_no_hints(r: DoctorReport, shell: Seq<char>)
    ensures
        all_met(r) <==> report_lines(r, shell).len() == 5,
{
}

/// The report: a title, then one status line for each finding that depends on
/// that finding alone (`OK` with the path, or `MISSING`, for the Copilot CLI and
/// the shell; `OK` or `MISSING` for the clipboard; `interactive` or
/// `non-interactive` for the terminal), then one hint for each requirement that
/// is not met; the check passes exactly when all four are met.
pub proof fn lemma_report_lines(r: DoctorReport, sh: Seq<char>)
    ensures
        report_lines(r, sh).len() == 5 + (if r.copilot is None {
            1int
        } else {
            0int
        }) + (if !r.clipboard {
            1int
        } else {
            0int
        }) + (if r.shell is None {
            1int
        } else {
            0int
        }) + (if !r.terminal {
            1int
        } else {
            0int
        }),
        report_lines(r, sh)[0] == "oldpilot doctor"@,
        report_lines(r, sh)[1] == match r.copilot {
            Some(p) => "  copilot: OK ("@ + p@ + ")"@,
            None => "  copilot: MISSING"@,
        },
        report_lines(r, sh)[2] == if r.clipboard {
            "  clipboard: OK"@
        } else {
            "  clipboard: MISSING"@
        },
        report_lines(r, sh)[3] == match r.shell {
            Some(p) => "  shell: OK ("@ + p@ + ")"@,
            None => "  shell: MISSING"@,
        },
        report_lines(r, sh)[4] == if r.terminal {
            "  terminal: interactive"@
        } else {
            "  terminal: non-interactive"@
        },
        r.copilot is None ==> report_lines(r, sh).contains(
            "  fix: install Copilot CLI with `npm install -g @github/copilot`"@,
        ),
        !r.clipboard ==> report_lines(r, sh).contains(
            "  fix: install clipboard support or pbcopy/wl-copy/xclip"@,
        ),
        r.shell is None ==> report_lines(r, sh).contains(
            "  fix: install the configured shell `"@ + sh + "` or set COPILOT_SHELL"@,
        ),
        !r.terminal ==> report_lines(r, sh).contains(
            "  fix: run interactive commands from a terminal"@,
        ),
        all_met(r) <==> (r.copilot is Some && r.shell is Some && r.clipboard && r.terminal),
{
    reveal_strlit("  copilot: ");
    reveal_strlit("  copilot: OK (");
    reveal_strlit("  copilot: MISSING");
    reveal_strlit("  shell: ");
    reveal_strlit("  shell: OK (");
    reveal_strlit("  shell: MISSING");
    reveal_strlit("  clipboard: ");
    reveal_strlit("  clipboard: OK");
    reveal_strlit("  clipboard: MISSING");
    reveal_strlit("  terminal: ");
    reveal_strlit("  terminal: interactive");
    reveal_strlit("  terminal: non-interactive");
    reveal_strlit("OK");
    reveal_strlit(" (");
    reveal_strlit("MISSING");
    reveal_strlit("interactive");
    reveal_strlit("non-interactive");
    let ls = report_lines(r, sh);
    match r.copilot {
        Some(p) => {
            assert("  copilot: "@ + found_text(opt_view(r.copilot)) =~= "  copilot: OK ("@ + p@
                + ")"@);
        },
        None => {
            assert("  copilot: "@ + found_text(opt_view(r.copilot)) =~= "  copilot: MISSING"@);
        },
    }
    match r.shell {
        Some(p) => {
            assert("  shell: "@ + found_text(opt_view(r.shell)) =~= "  shell: OK ("@ + p@ + ")"@);
        },
        None => {
            assert("  shell: "@ + found_text(opt_view(r.shell)) =~= "  shell: MISSING"@);
        },
    }
    assert("  clipboard: "@ + ok_text(r.clipboard) =~= if r.clipboard {
        "  clipboard: OK"@
    } else {
        "  clipboard: MISSING"@
    });
    assert("  terminal: "@ + (if r.terminal {
        "interactive"@
    } else {
        "non-interactive"@
    }) =~= if r.terminal {
        "  terminal: interactive"@
    } else {
        "  terminal: non-interactive"@
    });
    let n1: int = if r.copilot is None {
        1
    } else {
        0
    };
    let n2: int = if !r.clipboard {
        1
    } else {
        0
    };
    let n3: int = if r.shell is None {
        1
    } else {
        0
    };
    if r.copilot is None {
        assert(ls[5] == "  fix: install Copilot CLI with `npm install -g @github/copilot`"@);
    }
    if !r.clipboard {
        assert(ls[5 + n1] == "  fix: install clipboard support or pbcopy/wl-copy/xclip"@);
    }
    if r.shell is None {
        assert(ls[5 + n1 + n2] == "  fix: install the configured shell `"@ + sh
            + "` or set COPILOT_SHELL"@);
    }
    if !r.terminal {
        assert(ls[5 + n1 + n2 + n3] == "  fix: run interactive commands from a terminal"@);
    }
}

} // verus!
