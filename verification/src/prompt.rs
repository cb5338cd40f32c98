//! What is handed to the Copilot CLI and what is shown of its answers.
use vstd::prelude::*;
use crate::config::opt_view;
use crate::lookup::str_views;
use crate::text::{
    blank_chars, chars_of, is_blank, lines, lines_of, push_chars, string_of, trim,
    trim_chars, views,
};

verus! {

/// The texts `ps` joined with `sep` between each two (what `[String]::join` gives).
pub open spec fn join_with(ps: Seq<Seq<char>>, sep: Seq<char>) -> Seq<char>
    decreases ps.len(),
{
    if ps.len() == 0 {
        Seq::empty()
    } else if ps.len() == 1 {
        ps[0]
    } else {
        join_with(ps.drop_last(), sep) + sep + ps.last()
    }
}

/// The marker that asks for an explanation.
pub open spec fn explain_marker() -> Seq<char> {
    "[[CPLT:CE]]"@
}

/// The marker that asks for a suggested command.
pub open spec fn suggest_marker() -> Seq<char> {
    "[[CPLT:CS]]"@
}

/// Why no prompt was made.
#[derive(Clone, Copy, Debug, PartialEq, Eq)]
pub enum PromptError {
    /// The words given make a blank prompt.
    Empty,
}

impl PromptError {
    /// The message that reports the error.
    pub fn message(&self) -> (s: String)
        ensures
            s@ == "Prompt cannot be empty"@,
    {
        "Prompt cannot be empty".to_owned()
    }
}

/// The words given on the command line, joined with single spaces.
pub fn join_words(parts: &Vec<String>) -> (r: String)
    ensures
        r@ == join_with(str_views(parts@), " "@),
{
    let mut r = String::new();
    let mut i: usize = 0;
    let sp = chars_of(" ");
    while i < parts.len()
        invariant
            i <= parts.len(),
            sp@ == " "@,
            r@ == join_with(str_views(parts@).subrange(0, i as int), " "@),
        decreases parts.len() - i,
    {
        let ghost ps = str_views(parts@).subrange(0, i + 1);
        proof {
            assert(ps.drop_last() =~= str_views(parts@).subrange(0, i as int));
        }
        if i > 0 {
            push_chars(&mut r, &sp);
        }
        let w = chars_of(parts[i].as_str());
        push_chars(&mut r, &w);
        proof {
            if i == 0 {
                assert(r@ =~= ps[0]);
            }
        }
        i = i + 1;
    }
    assert(str_views(parts@).subrange(0, parts.len() as int) =~= str_views(parts@));
    r
}

/// The prompt `marker` + `infix` + the joined words, or the error where the joined
/// words are blank.
pub open spec fn marked_prompt(parts: Seq<Seq<char>>, marker: Seq<char>, infix: Seq<char>) -> Result<
    Seq<char>,
    PromptError,
> {
    let p = join_with(parts, " "@);
    if is_blank(p) {
        Err(PromptError::Empty)
    } else {
        Ok(marker + infix + p)
    }
}

/// The view of a prompt result.
pub open spec fn prompt_view(r: Result<String, PromptError>) -> Result<Seq<char>, PromptError> {
    match r {
        Ok(s) => Ok(s@),
        Err(e) => Err(e),
    }
}

fn marked(parts: &Vec<String>, marker: &str, infix: &str) -> (r: Result<String, PromptError>)
    ensures
        prompt_view(r) == marked_prompt(str_views(parts@), marker@, infix@),
{
    let p = join_words(parts);
    let pv = chars_of(p.as_str());
    if blank_chars(&pv) {
        return Err(PromptError::Empty);
    }
    let mut r = marker.to_owned();
    push_chars(&mut r, &chars_of(infix));
    push_chars(&mut r, &pv);
    Ok(r)
}

/// The prompt that asks Copilot to explain what the words describe.
pub fn explain_prompt(parts: &Vec<String>) -> (r: Result<String, PromptError>)
    ensures
        prompt_view(r) == marked_prompt(str_views(parts@), explain_marker(), " "@),
{
    marked(parts, "[[CPLT:CE]]", " ")
}

/// The prompt that asks Copilot for a command doing what the words describe.
pub fn suggest_prompt(parts: &Vec<String>) -> (r: Result<String, PromptError>)
    ensures
        prompt_view(r) == marked_prompt(str_views(parts@), suggest_marker(), " TASK: "@),
{
    marked(parts, "[[CPLT:CS]]", " TASK: ")
}

/// The arguments of the Copilot CLI for `prompt`: `-p prompt -s`, then
/// `--model m` where a non-empty model `m` is given.
pub open spec fn copilot_args_spec(prompt: Seq<char>, model: Option<Seq<char>>) -> Seq<Seq<char>> {
    seq!["-p"@, prompt, "-s"@] + match model {
        Some(m) if m.len() > 0 => seq!["--model"@, m],
        _ => Seq::<Seq<char>>::empty(),
    }
}

/// The arguments of the Copilot CLI for `prompt`.
pub fn copilot_args(prompt: &str, model: &Option<String>) -> (r: Vec<String>)
    ensures
        str_views(r@) == copilot_args_spec(prompt@, opt_view(*model)),
{
    let mut r: Vec<String> = Vec::new();
    r.push("-p".to_owned());
    r.push(prompt.to_owned());
    r.push("-s".to_owned());
    let ghost base = str_views(r@);
    assert(base =~= seq!["-p"@, prompt@, "-s"@]);
    match model {
        Some(m) => {
            if m.as_str().unicode_len() > 0 {
                r.push("--model".to_owned());
                r.push(m.clone());
                assert(str_views(r@) =~= base + seq!["--model"@, m@]);
            } else {
                assert(str_views(r@) =~= base + Seq::<Seq<char>>::empty());
            }
        },
        None => {
            assert(str_views(r@) =~= base + Seq::<Seq<char>>::empty());
        },
    }
    r
}

/// The suggested command in Copilot's answer: the answer trimmed, `None` where
/// nothing is left.
pub fn suggestion_of(answer: &str) -> (r: Option<String>)
    ensures
        match r {
            Some(s) => s@ == trim(answer@) && s@.len() > 0,
            None => trim(answer@).len() == 0,
        },
{
    let t = trim_chars(&chars_of(answer));
    if t.len() == 0 {
        None
    } else {
        Some(string_of(&t))
    }
}

/// The words that ask for an explanation of a suggested command.
pub fn explain_request(suggestion: &str) -> (r: Vec<String>)
    ensures
        str_views(r@) == seq!["Explain this command: "@ + suggestion@],
{
    let mut s = "Explain this command: ".to_owned();
    push_chars(&mut s, &chars_of(suggestion));
    let r = vec![s];
    assert(str_views(r@) =~= seq!["Explain this command: "@ + suggestion@]);
    r
}

/// Each line of `ls` indented by two spaces.
pub open spec fn indented(ls: Seq<Seq<char>>) -> Seq<Seq<char>> {
    ls.map_values(|l: Seq<char>| "  "@ + l)
}

/// A labelled block: the label in bold cyan on its own line, then each line of
/// `text` indented by two spaces, then an empty line's line feed.
pub open spec fn block_text(label: Seq<char>, text: Seq<char>) -> Seq<char> {
    "\u{1b}[1;36m"@ + label + "\u{1b}[0m\n"@ + join_with(indented(lines(text)), "\n"@) + "\n"@
}

/// A labelled block of text, as printed.
pub fn format_block(label: &str, text: &str) -> (r: String)
    ensures
        r@ == block_text(label@, text@),
{
    let ls = lines_of(&chars_of(text));
    let ghost ind = indented(views(ls@));
    let mut body = String::new();
    let mut i: usize = 0;
    let nl = chars_of("\n");
    let pad = chars_of("  ");
    while i < ls.len()
        invariant
            i <= ls.len(),
            nl@ == "\n"@,
            pad@ == "  "@,
            ind == indented(views(ls@)),
            body@ == join_with(ind.subrange(0, i as int), "\n"@),
        decreases ls.len() - i,
    {
        let ghost ps = ind.subrange(0, i + 1);
        proof {
            assert(ps.drop_last() =~= ind.subrange(0, i as int));
            assert(ps.last() == "  "@ + ls@[i as int]@);
        }
        if i > 0 {
            push_chars(&mut body, &nl);
        }
        push_chars(&mut body, &pad);
        push_chars(&mut body, &ls[i]);
        proof {
            if i == 0 {
                assert(body@ =~= ps[0]);
            } else {
                assert(body@ =~= join_with(ps.drop_last(), "\n"@) + "\n"@ + ps.last());
            }
        }
        i = i + 1;
    }
    assert(ind.subrange(0, ls.len() as int) =~= ind);
    let mut r = "\u{1b}[1;36m".to_owned();
    push_chars(&mut r, &chars_of(label));
    push_chars(&mut r, &chars_of("\u{1b}[0m\n"));
    push_chars(&mut r, &chars_of(body.as_str()));
    push_chars(&mut r, &nl);
    r
}

} // verus!
