//! Finding an executable: a bare name is looked up in each directory of `PATH`,
//! anything else is taken as the path it is.
use vstd::prelude::*;
use crate::config::{opt_view, path_join, Config};
use crate::text::{chars_of, lemma_split_on_len, split_on, string_of, views};
use crate::values::{chosen_value, copilot_name, shell_name, EnvOverrides};

verus! {

/// A path piece that makes a component: neither empty nor `.`.
pub open spec fn is_named(p: Seq<char>) -> bool {
    p.len() > 0 && p != seq!['.']
}

/// How many of the pieces `ps` make components.
pub open spec fn count_named(ps: Seq<Seq<char>>) -> nat
    decreases ps.len(),
{
    if ps.len() == 0 {
        0
    } else {
        count_named(ps.drop_last()) + if is_named(ps.last()) {
            1nat
        } else {
            0nat
        }
    }
}

/// Whether `s` is an absolute path (on Unix: it starts with `/`).
pub open spec fn is_absolute(s: Seq<char>) -> bool {
    s.len() > 0 && s[0] == '/'
}

/// Whether a relative `s` starts with the current directory `.`.
pub open spec fn starts_at_cur_dir(s: Seq<char>) -> bool {
    !is_absolute(s) && s.len() > 0 && s[0] == '.' && (s.len() == 1 || s[1] == '/')
}

/// The number of components of the path `s`, as `Path::components` counts them
/// on Unix: the root, a leading `.`, and every piece between separators that is
/// neither empty nor `.`.
pub open spec fn component_count(s: Seq<char>) -> nat {
    (if is_absolute(s) {
        1nat
    } else {
        0nat
    }) + (if starts_at_cur_dir(s) {
        1nat
    } else {
        0nat
    }) + count_named(split_on(s, '/'))
}

/// Whether `s` is looked up in `PATH`: a relative path of at most one component.
pub open spec fn is_bare_name(s: Seq<char>) -> bool {
    !is_absolute(s) && component_count(s) <= 1
}

/// The paths at which `name` is looked for, in order: `name` itself where it is
/// not a bare name; else `name` joined to each entry of the `PATH` value, split at
/// `:` (none where `PATH` is unset).
pub open spec fn candidates(name: Seq<char>, path_var: Option<Seq<char>>) -> Seq<Seq<char>> {
    if !is_bare_name(name) {
        seq![name]
    } else {
        match path_var {
            Some(p) => split_on(p, ':').map_values(|d: Seq<char>| path_join(d, name)),
            None => Seq::empty(),
        }
    }
}

/// The first of `cs` that `files` holds.
pub open spec fn first_found(cs: Seq<Seq<char>>, files: Seq<Seq<char>>) -> Option<Seq<char>>
    decreases cs.len(),
{
    if cs.len() == 0 {
        None
    } else if files.contains(cs[0]) {
        Some(cs[0])
    } else {
        first_found(cs.drop_first(), files)
    }
}

/// The texts of a sequence of strings.
pub open spec fn str_views(v: Seq<String>) -> Seq<Seq<char>> {
    v.map_values(|s: String| s@)
}

/// Where `name` is found, given the value of `PATH` and the paths known to be
/// regular files.
pub open spec fn lookup(name: Seq<char>, path_var: Option<Seq<char>>, files: Seq<Seq<char>>) -> Option<
    Seq<char>,
> {
    first_found(candidates(name, path_var), files)
}

/// `v` cut at each `sep`.
pub fn split_chars(v: &Vec<char>, sep: char) -> (r: Vec<Vec<char>>)
    ensures
        views(r@) == split_on(v@, sep),
{
    let mut done: Vec<Vec<char>> = Vec::new();
    let mut cur: Vec<char> = Vec::new();
    let mut i: usize = 0;
    proof {
        assert(v@.subrange(0, 0) =~= Seq::<char>::empty());
        assert(views(done@).push(cur@) =~= split_on(v@.subrange(0, 0), sep));
    }
    while i < v.len()
        invariant
            i <= v.len(),
            views(done@).push(cur@) == split_on(v@.subrange(0, i as int), sep),
        decreases v.len() - i,
    {
        let ghost pre = v@.subrange(0, i as int);
        let ghost d0 = done@;
        let ghost cur0 = cur@;
        proof {
            lemma_split_on_len(pre, sep);
            assert(v@.subrange(0, i + 1).drop_last() =~= pre);
        }
        let c = v[i];
        if c == sep {
            let finished = cur;
            done.push(finished);
            cur = Vec::new();
            assert(views(done@) =~= views(d0).push(finished@));
        } else {
            cur.push(c);
            assert(views(done@).push(cur@) =~= views(d0).push(cur0).update(
                views(d0).len() as int,
                cur0.push(c),
            ));
        }
        i = i + 1;
    }
    assert(v@.subrange(0, v.len() as int) =~= v@);
    done.push(cur);
    done
}

/// `n`, counted no further than 2.
spec fn capped(n: nat) -> nat {
    if n < 2 {
        n
    } else {
        2
    }
}

/// Whether `name` is looked up in `PATH`.
pub fn bare_name(name: &str) -> (b: bool)
    ensures
        b == is_bare_name(name@),
{
    let v = chars_of(name);
    let absolute = v.len() > 0 && v[0] == '/';
    if absolute {
        return false;
    }
    let cur_dir = v.len() > 0 && v[0] == '.' && (v.len() == 1 || v[1] == '/');
    let ps = split_chars(&v, '/');
    let mut n: usize = if cur_dir {
        1
    } else {
        0
    };
    let mut i: usize = 0;
    while i < ps.len()
        invariant
            i <= ps.len(),
            n == capped((if cur_dir {
                1nat
            } else {
                0nat
            }) + count_named(views(ps@).subrange(0, i as int))),
        decreases ps.len() - i,
    {
        proof {
            assert(views(ps@).subrange(0, i + 1).drop_last() =~= views(ps@).subrange(0, i as int));
        }
        let p = &ps[i];
        let named = p.len() > 0 && !(p.len() == 1 && p[0] == '.');
        proof {
            if p.len() == 1 && p@[0] == '.' {
                assert(p@ =~= seq!['.']);
            }
        }
        if named && n < 2 {
            n = n + 1;
        }
        i = i + 1;
    }
    assert(views(ps@).subrange(0, ps.len() as int) =~= views(ps@));
    n <= 1
}

/// The paths at which `name` is looked for, given the value of `PATH`.
pub fn executable_candidates(name: &str, path_var: &Option<String>) -> (r: Vec<String>)
    ensures
        str_views(r@) == candidates(name@, opt_view(*path_var)),
{
    let mut r: Vec<String> = Vec::new();
    if !bare_name(name) {
        r.push(name.to_owned());
        assert(str_views(r@) =~= seq![name@]);
        return r;
    }
    match path_var {
        None => {
            assert(str_views(r@) =~= Seq::<Seq<char>>::empty());
            r
        },
        Some(p) => {
            let dirs = split_chars(&chars_of(p.as_str()), ':');
            let ghost target = split_on(p@, ':').map_values(|d: Seq<char>| path_join(d, name@));
            let mut i: usize = 0;
            while i < dirs.len()
                invariant
                    i <= dirs.len(),
                    views(dirs@) == split_on(p@, ':'),
                    target == split_on(p@, ':').map_values(|d: Seq<char>| path_join(d, name@)),
                    str_views(r@) == target.subrange(0, i as int),
                decreases dirs.len() - i,
            {
                let d = string_of(&dirs[i]);
                let j = crate::config::join_path(d.as_str(), name);
                let ghost r0 = r@;
                r.push(j);
                assert(str_views(r@) =~= str_views(r0).push(j@));
                assert(target[i as int] == path_join(dirs@[i as int]@, name@));
                i = i + 1;
                assert(str_views(r@) =~= target.subrange(0, i as int));
            }
            assert(target.subrange(0, dirs.len() as int) =~= target);
            r
        },
    }
}

/// Whether `files` holds `s`.
fn holds(files: &Vec<String>, s: &String) -> (b: bool)
    ensures
        b == str_views(files@).contains(s@),
{
    let mut i: usize = 0;
    while i < files.len()
        invariant
            i <= files.len(),
            forall|j: int| 0 <= j < i ==> files@[j]@ != s@,
        decreases files.len() - i,
    {
        if files[i] == *s {
            assert(str_views(files@)[i as int] == s@);
            return true;
        }
        i = i + 1;
    }
    assert(!str_views(files@).contains(s@)) by {
        if str_views(files@).contains(s@) {
            let j = choose|j: int| 0 <= j < files@.len() && str_views(files@)[j] == s@;
            assert(files@[j]@ == s@);
        }
    }
    false
}

/// Where the executable `path_or_name` is: the first of its candidate paths that
/// `files`, the paths known to be regular files, holds; `None` where there is none.
pub fn executable(path_or_name: &str, path_var: &Option<String>, files: &Vec<String>) -> (r: Option<
    String,
>)
    ensures
        opt_view(r) == lookup(path_or_name@, opt_view(*path_var), str_views(files@)),
{
    let cs = executable_candidates(path_or_name, path_var);
    let ghost all = str_views(cs@);
    let ghost fs = str_views(files@);
    assert(all.subrange(0, all.len() as int) =~= all);
    let mut i: usize = 0;
    while i < cs.len()
        invariant
            i <= cs.len(),
            all == str_views(cs@),
            all == candidates(path_or_name@, opt_view(*path_var)),
            fs == str_views(files@),
            first_found(all, fs) == first_found(all.subrange(i as int, all.len() as int), fs),
        decreases cs.len() - i,
    {
        let ghost rest = all.subrange(i as int, all.len() as int);
        assert(rest[0] == cs@[i as int]@);
        if holds(files, &cs[i]) {
            let found = cs[i].clone();
            assert(first_found(rest, fs) == Some(rest[0]));
            assert(found@ == rest[0]);
            assert(first_found(all, fs) == Some(found@));
            return Some(found);
        }
        assert(rest.drop_first() =~= all.subrange(i + 1, all.len() as int));
        i = i + 1;
    }
    assert(all.subrange(i as int, all.len() as int) =~= Seq::<Seq<char>>::empty());
    None
}

/// Why the Copilot CLI could not be resolved.
#[derive(Clone, Copy, Debug, PartialEq, Eq)]
pub enum LookupError {
    /// No candidate path of the configured Copilot CLI is a file.
    CopilotNotFound,
}

impl LookupError {
    /// The message that reports the error, with the installation hint.
    pub fn message(&self) -> (s: String)
        ensures
            s@ == "GitHub Copilot CLI was not found. Install it with `npm install -g @github/copilot` and verify it with `command -v copilot`."@,
    {
        "GitHub Copilot CLI was not found. Install it with `npm install -g @github/copilot` and verify it with `command -v copilot`.".to_owned()
    }
}

/// The name of the Copilot CLI in effect.
pub open spec fn copilot_in_effect(c: crate::config::ConfigView, env: EnvOverrides) -> Seq<char> {
    chosen_value(opt_view(env.copilot_bin), c.copilot_bin, "copilot"@)
}

/// The name of the shell in effect.
pub open spec fn shell_in_effect(c: crate::config::ConfigView, env: EnvOverrides) -> Seq<char> {
    chosen_value(opt_view(env.shell), c.shell, "sh"@)
}

/// Where the Copilot CLI in effect is found; the error where it is not.
pub fn resolve_copilot(
    c: &Config,
    env: &EnvOverrides,
    path_var: &Option<String>,
    files: &Vec<String>,
) -> (r: Result<String, LookupError>)
    ensures
        match lookup(copilot_in_effect(c@, *env), opt_view(*path_var), str_views(files@)) {
            Some(p) => r matches Ok(s) && s@ == p,
            None => r == Err::<String, LookupError>(LookupError::CopilotNotFound),
        },
{
    let name = copilot_name(c, env);
    match executable(name.as_str(), path_var, files) {
        Some(p) => Ok(p),
        None => Err(LookupError::CopilotNotFound),
    }
}

/// Where the shell in effect is found.
pub fn resolve_shell(c: &Config, env: &EnvOverrides, path_var: &Option<String>, files: &Vec<String>) -> (r:
    Option<String>)
    ensures
        opt_view(r) == lookup(shell_in_effect(c@, *env), opt_view(*path_var), str_views(files@)),
{
    let name = shell_name(c, env);
    executable(name.as_str(), path_var, files)
}

/// The command-line clipboard tools tried, in order.
pub open spec fn clipboard_tools_spec() -> Seq<Seq<char>> {
    seq!["pbcopy"@, "wl-copy"@, "xclip"@]
}

/// The command-line clipboard tools tried, in order.
pub fn clipboard_tools() -> (r: Vec<String>)
    ensures
        str_views(r@) == clipboard_tools_spec(),
{
    let r = vec!["pbcopy".to_owned(), "wl-copy".to_owned(), "xclip".to_owned()];
    assert(str_views(r@) =~= clipboard_tools_spec());
    r
}

/// The arguments given to a clipboard tool: `xclip` is told to use the clipboard
/// selection, the others take none.
pub fn clipboard_tool_args(tool: &str) -> (r: Vec<String>)
    ensures
        str_views(r@) == if tool@ == "xclip"@ {
            seq!["-selection"@, "clipboard"@]
        } else {
            Seq::<Seq<char>>::empty()
        },
{
    let mut r: Vec<String> = Vec::new();
    if crate::text::chars_eq(&chars_of(tool), "xclip") {
        r.push("-selection".to_owned());
        r.push("clipboard".to_owned());
        assert(str_views(r@) =~= seq!["-selection"@, "clipboard"@]);
    } else {
        assert(str_views(r@) =~= Seq::<Seq<char>>::empty());
    }
    r
}

/// Whether some clipboard can be used: the system clipboard could be opened, or
/// one of the clipboard tools is found.
pub fn clipboard_available(clipboard_opens: bool, path_var: &Option<String>, files: &Vec<String>) -> (b:
    bool)
    ensures
        b == (clipboard_opens || exists|i: int|
            0 <= i < 3 && #[trigger] lookup(
                clipboard_tools_spec()[i],
                opt_view(*path_var),
                str_views(files@),
            ) is Some),
{
    if clipboard_opens {
        return true;
    }
    let tools = clipboard_tools();
    assert(tools@.len() == str_views(tools@).len());
    let mut i: usize = 0;
    while i < tools.len()
        invariant
            i <= tools.len() == 3,
            str_views(tools@) == clipboard_tools_spec(),
            forall|j: int|
                0 <= j < i ==> #[trigger] lookup(
                    clipboard_tools_spec()[j],
                    opt_view(*path_var),
                    str_views(files@),
                ) is None,
        decreases tools.len() - i,
    {
        assert(tools@[i as int]@ == clipboard_tools_spec()[i as int]);
        if executable(tools[i].as_str(), path_var, files).is_some() {
            return true;
        }
        i = i + 1;
    }
    false
}

/// A path that is not a bare name is never looked up in `PATH`: it is found where
/// it is a known file, whatever `PATH` holds.
pub proof fn lemma_path_ignores_search_path(
    name: Seq<char>,
    path_var: Option<Seq<char>>,
    files: Seq<Seq<char>>,
)
    requires
        !is_bare_name(name),
    ensures
        lookup(name, path_var, files) == if files.contains(name) {
            Some(name)
        } else {
            None::<Seq<char>>
        },
{
    let cs = candidates(name, path_var);
    assert(cs =~= seq![name]);
    assert(cs.drop_first() =~= Seq::<Seq<char>>::empty());
    assert(cs[0] == name);
    assert(first_found(Seq::<Seq<char>>::empty(), files) is None);
}

/// A bare name is found in the first directory of `PATH` that holds it as a file.
pub proof fn lemma_bare_name_first_dir(name: Seq<char>, p: Seq<char>, files: Seq<Seq<char>>, k: int)
    requires
        is_bare_name(name),
        0 <= k < split_on(p, ':').len(),
        files.contains(path_join(split_on(p, ':')[k], name)),
        forall|j: int|
            0 <= j < k ==> !files.contains(#[trigger] path_join(split_on(p, ':')[j], name)),
    ensures
        lookup(name, Some(p), files) == Some(path_join(split_on(p, ':')[k], name)),
{
    let cs = candidates(name, Some(p));
    lemma_first_found_at(cs, files, k);
}

proof fn lemma_first_found_at(cs: Seq<Seq<char>>, files: Seq<Seq<char>>, k: int)
    requires
        0 <= k < cs.len(),
        files.contains(cs[k]),
        forall|j: int| 0 <= j < k ==> !files.contains(#[trigger] cs[j]),
    ensures
        first_found(cs, files) == Some(cs[k]),
    decreases k,
{
    if k > 0 {
        let rest = cs.drop_first();
        assert(!files.contains(cs[0]));
        assert forall|j: int| 0 <= j < k - 1 implies !files.contains(#[trigger] rest[j]) by {
            assert(rest[j] == cs[j + 1]);
        }
        lemma_first_found_at(rest, files, k - 1);
    }
}

/// Some clipboard can be used exactly when the system clipboard opens or one of
/// `pbcopy`, `wl-copy` and `xclip` is found.
pub proof fn lemma_clipboard_tools(clipboard_opens: bool, path_var: Option<Seq<char>>, files: Seq<Seq<char>>)
    ensures
        (clipboard_opens || exists|i: int|
            0 <= i < 3 && #[trigger] lookup(clipboard_tools_spec()[i], path_var, files) is Some) <==> (
        clipboard_opens || lookup("pbcopy"@, path_var, files) is Some || lookup("wl-copy"@, path_var, files) is Some
            || lookup("xclip"@, path_var, files) is Some),
{
    let t = clipboard_tools_spec();
    assert(t[0] == "pbcopy"@);
    assert(t[1] == "wl-copy"@);
    assert(t[2] == "xclip"@);
}

} // verus!
