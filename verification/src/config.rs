//! The configuration file: its `key=value` format, read and written.
use vstd::prelude::*;
use crate::text::{is_ws, lemma_split_on_len, split_on, strip_cr, trim_start, chars_eq, push_char, push_chars, chars_of, find_char, index_of, lemma_index_of, lines, lines_of, slice_chars, string_of, trim, trim_chars, views};

verus! {

/// The settings that the configuration file can hold; `None` where it holds none.
#[derive(Clone, Debug, PartialEq, Eq)]
pub struct Config {
    pub default_model: Option<String>,
    pub confirm_execute: Option<bool>,
    pub copilot_bin: Option<String>,
    pub shell: Option<String>,
}

/// The settings of a `Config`, as texts.
pub struct ConfigView {
    pub default_model: Option<Seq<char>>,
    pub confirm_execute: Option<bool>,
    pub copilot_bin: Option<Seq<char>>,
    pub shell: Option<Seq<char>>,
}

pub open spec fn opt_view(o: Option<String>) -> Option<Seq<char>> {
    match o {
        Some(s) => Some(s@),
        None => None,
    }
}

impl View for Config {
    type V = ConfigView;

    open spec fn view(&self) -> ConfigView {
        ConfigView {
            default_model: opt_view(self.default_model),
            confirm_execute: self.confirm_execute,
            copilot_bin: opt_view(self.copilot_bin),
            shell: opt_view(self.shell),
        }
    }
}

/// The configuration with nothing set.
pub open spec fn empty_config() -> ConfigView {
    ConfigView { default_model: None, confirm_execute: None, copilot_bin: None, shell: None }
}

impl Default for Config {
    fn default() -> (c: Config)
        ensures
            c@ == empty_config(),
    {
        Config { default_model: None, confirm_execute: None, copilot_bin: None, shell: None }
    }
}

/// A value without the pair of double or single quotes that encloses it.
pub open spec fn unquote(v: Seq<char>) -> Seq<char> {
    if v.len() >= 2 && ((v[0] == '"' && v.last() == '"') || (v[0] == '\'' && v.last() == '\'')) {
        v.subrange(1, v.len() - 1)
    } else {
        v
    }
}

/// The code of `c` with ASCII capitals lowered.
pub open spec fn lower_code(c: char) -> u32 {
    let u = c as u32;
    if 65 <= u && u <= 90 {
        (u + 32) as u32
    } else {
        u
    }
}

/// Whether `v`, with its ASCII capitals lowered, is the word `w`.
pub open spec fn eq_ignore_case(v: Seq<char>, w: Seq<char>) -> bool {
    &&& v.len() == w.len()
    &&& forall|i: int| 0 <= i < v.len() ==> lower_code(v[i]) == w[i] as u32
}

/// The truth value that a `confirm_execute` value names, in any case of ASCII letters.
pub open spec fn bool_word(v: Seq<char>) -> Option<bool> {
    if eq_ignore_case(v, "true"@) || eq_ignore_case(v, "1"@) || eq_ignore_case(v, "yes"@) {
        Some(true)
    } else if eq_ignore_case(v, "false"@) || eq_ignore_case(v, "0"@) || eq_ignore_case(v, "no"@) {
        Some(false)
    } else {
        None
    }
}

/// The configuration after one `key=value` setting: the three text settings take
/// a non-empty value, `confirm_execute` a value that names a truth value; any other
/// setting changes nothing.
pub open spec fn apply_setting(c: ConfigView, key: Seq<char>, value: Seq<char>) -> ConfigView {
    if key == "default_model"@ && value.len() > 0 {
        ConfigView { default_model: Some(value), ..c }
    } else if key == "copilot_bin"@ && value.len() > 0 {
        ConfigView { copilot_bin: Some(value), ..c }
    } else if key == "shell"@ && value.len() > 0 {
        ConfigView { shell: Some(value), ..c }
    } else if key == "confirm_execute"@ {
        match bool_word(value) {
            Some(b) => ConfigView { confirm_execute: Some(b), ..c },
            None => c,
        }
    } else {
        c
    }
}

/// The configuration after one line of the file. Blank lines, lines that start
/// with `#` and lines without `=` change nothing; otherwise the key is what stands
/// before the first `=` and the value what follows it, both trimmed, the value
/// without enclosing quotes.
pub open spec fn parse_line(c: ConfigView, line: Seq<char>) -> ConfigView {
    let l = trim(line);
    if l.len() == 0 || l[0] == '#' {
        c
    } else {
        let k = index_of(l, '=');
        if k < 0 {
            c
        } else {
            apply_setting(
                c,
                trim(l.subrange(0, k)),
                unquote(trim(l.subrange(k + 1, l.len() as int))),
            )
        }
    }
}

/// The configuration after the lines `ls`, read in order from `c`.
pub open spec fn parse_lines(c: ConfigView, ls: Seq<Seq<char>>) -> ConfigView
    decreases ls.len(),
{
    if ls.len() == 0 {
        c
    } else {
        parse_line(parse_lines(c, ls.drop_last()), ls.last())
    }
}

/// The configuration that the file text `t` holds.
pub open spec fn parse_text(t: Seq<char>) -> ConfigView {
    parse_lines(empty_config(), lines(t))
}

/// `ASCII-lowered v == w`, `w` being a lower-case word.
fn eq_word(v: &Vec<char>, w: &str) -> (b: bool)
    ensures
        b == eq_ignore_case(v@, w@),
{
    let ws = chars_of(w);
    if v.len() != ws.len() {
        return false;
    }
    let mut i: usize = 0;
    while i < v.len()
        invariant
            i <= v.len() == ws.len(),
            ws@ == w@,
            forall|j: int| 0 <= j < i ==> lower_code(v@[j]) == ws@[j] as u32,
        decreases v.len() - i,
    {
        let u = v[i] as u32;
        let lu = if 65 <= u && u <= 90 {
            u + 32
        } else {
            u
        };
        if lu != ws[i] as u32 {
            return false;
        }
        i = i + 1;
    }
    true
}

/// The truth value that a `confirm_execute` value names.
fn parse_bool_word(v: &Vec<char>) -> (r: Option<bool>)
    ensures
        r == bool_word(v@),
{
    if eq_word(v, "true") || eq_word(v, "1") || eq_word(v, "yes") {
        Some(true)
    } else if eq_word(v, "false") || eq_word(v, "0") || eq_word(v, "no") {
        Some(false)
    } else {
        None
    }
}

/// A value without enclosing quotes.
fn unquote_chars(v: &Vec<char>) -> (r: Vec<char>)
    ensures
        r@ == unquote(v@),
{
    let n = v.len();
    if n >= 2 && ((v[0] == '"' && v[n - 1] == '"') || (v[0] == '\'' && v[n - 1] == '\'')) {
        slice_chars(v, 1, n - 1)
    } else {
        slice_chars(v, 0, n)
    }
}

/// Applies one line of the configuration file to `c`.
pub fn apply_line(c: &mut Config, line: &Vec<char>)
    ensures
        final(c)@ == parse_line(old(c)@, line@),
{
    let l = trim_chars(line);
    if l.len() == 0 || l[0] == '#' {
        return ;
    }
    let k = match find_char(&l, '=') {
        Some(k) => k,
        None => {
            return ;
        },
    };
    proof {
        lemma_index_of(l@, '=');
    }
    let key = trim_chars(&slice_chars(&l, 0, k));
    let value = unquote_chars(&trim_chars(&slice_chars(&l, k + 1, l.len())));
    if chars_eq(&key, "default_model") && value.len() > 0 {
        c.default_model = Some(string_of(&value));
    } else if chars_eq(&key, "copilot_bin") && value.len() > 0 {
        c.copilot_bin = Some(string_of(&value));
    } else if chars_eq(&key, "shell") && value.len() > 0 {
        c.shell = Some(string_of(&value));
    } else if chars_eq(&key, "confirm_execute") {
        match parse_bool_word(&value) {
            Some(b) => {
                c.confirm_execute = Some(b);
            },
            None => {},
        }
    }
}

/// The configuration that the text of a configuration file holds.
pub fn parse_config(text: &str) -> (c: Config)
    ensures
        c@ == parse_text(text@),
{
    let ls = lines_of(&chars_of(text));
    let mut c = Config { default_model: None, confirm_execute: None, copilot_bin: None, shell: None };
    let mut i: usize = 0;
    while i < ls.len()
        invariant
            i <= ls.len(),
            c@ == parse_lines(empty_config(), views(ls@).subrange(0, i as int)),
        decreases ls.len() - i,
    {
        let ghost before = c@;
        apply_line(&mut c, &ls[i]);
        proof {
            let s = views(ls@).subrange(0, i + 1);
            assert(s.drop_last() =~= views(ls@).subrange(0, i as int));
            assert(s.last() == ls@[i as int]@);
        }
        i = i + 1;
    }
    proof {
        assert(views(ls@).subrange(0, ls.len() as int) =~= views(ls@));
    }
    c
}

/// `s` with a backslash put before each double quote.
pub open spec fn escape_quotes(s: Seq<char>) -> Seq<char>
    decreases s.len(),
{
    if s.len() == 0 {
        s
    } else {
        escape_quotes(s.drop_last()) + if s.last() == '"' {
            seq!['\\', '"']
        } else {
            seq![s.last()]
        }
    }
}

/// The line that writes the text setting `key` with value `v`, in double quotes.
pub open spec fn quoted_line(key: Seq<char>, v: Seq<char>) -> Seq<char> {
    key + seq!['=', '"'] + escape_quotes(v) + seq!['"']
}

/// The line that writes `confirm_execute`.
pub open spec fn confirm_line(b: bool) -> Seq<char> {
    "confirm_execute="@ + if b {
        "true"@
    } else {
        "false"@
    }
}

/// The line for a text setting that is set; none for one that is not.
pub open spec fn opt_quoted_line(key: Seq<char>, o: Option<Seq<char>>) -> Seq<Seq<char>> {
    match o {
        Some(v) => seq![quoted_line(key, v)],
        None => Seq::empty(),
    }
}

/// The header of a written configuration file.
pub open spec fn header_lines() -> Seq<Seq<char>> {
    seq!["# oldpilot config"@, "# Lines are key=value. Strings may be quoted."@, Seq::<char>::empty()]
}

/// The lines of the file that holds `c`: a header, then one line for each setting
/// that is set, in the order `default_model`, `confirm_execute`, `copilot_bin`, `shell`.
pub open spec fn config_lines(c: ConfigView) -> Seq<Seq<char>> {
    header_lines() + opt_quoted_line("default_model"@, c.default_model) + match c.confirm_execute {
        Some(b) => seq![confirm_line(b)],
        None => Seq::<Seq<char>>::empty(),
    } + opt_quoted_line("copilot_bin"@, c.copilot_bin) + opt_quoted_line("shell"@, c.shell)
}

/// The lines `ls`, each ended by a line feed.
pub open spec fn terminated(ls: Seq<Seq<char>>) -> Seq<char>
    decreases ls.len(),
{
    if ls.len() == 0 {
        Seq::empty()
    } else {
        terminated(ls.drop_last()) + ls.last() + seq!['\n']
    }
}

/// The text of the file that holds `c`.
pub open spec fn config_text(c: ConfigView) -> Seq<char> {
    terminated(config_lines(c))
}

/// `v` with a backslash put before each double quote (`str::replace('"', "\\\"")`).
fn escape_chars(v: &Vec<char>) -> (r: Vec<char>)
    ensures
        r@ == escape_quotes(v@),
{
    let mut r: Vec<char> = Vec::new();
    let mut i: usize = 0;
    while i < v.len()
        invariant
            i <= v.len(),
            r@ == escape_quotes(v@.subrange(0, i as int)),
        decreases v.len() - i,
    {
        let ghost r0 = r@;
        proof {
            assert(v@.subrange(0, i + 1).drop_last() =~= v@.subrange(0, i as int));
        }
        if v[i] == '"' {
            r.push('\\');
            r.push('"');
        } else {
            r.push(v[i]);
        }
        assert(r@ =~= escape_quotes(v@.subrange(0, i + 1)));
        i = i + 1;
    }
    assert(v@.subrange(0, v.len() as int) =~= v@);
    r
}

/// The line that writes a text setting.
fn quoted_line_chars(key: &str, v: &String) -> (r: Vec<char>)
    ensures
        r@ == quoted_line(key@, v@),
{
    let mut r = chars_of(key);
    r.push('=');
    r.push('"');
    let mut e = escape_chars(&chars_of(v.as_str()));
    r.append(&mut e);
    r.push('"');
    assert(r@ =~= quoted_line(key@, v@));
    r
}

/// The lines, each ended by a line feed, as one text.
fn join_terminated(ls: &Vec<Vec<char>>) -> (s: String)
    ensures
        s@ == terminated(views(ls@)),
{
    let mut s = String::new();
    let mut i: usize = 0;
    while i < ls.len()
        invariant
            i <= ls.len(),
            s@ == terminated(views(ls@).subrange(0, i as int)),
        decreases ls.len() - i,
    {
        proof {
            let t = views(ls@).subrange(0, i + 1);
            assert(t.drop_last() =~= views(ls@).subrange(0, i as int));
        }
        push_chars(&mut s, &ls[i]);
        push_char(&mut s, '\n');
        i = i + 1;
    }
    assert(views(ls@).subrange(0, ls.len() as int) =~= views(ls@));
    s
}

/// The text of the configuration file that holds `c`.
pub fn render_config(c: &Config) -> (s: String)
    ensures
        s@ == config_text(c@),
{
    let mut ls: Vec<Vec<char>> = Vec::new();
    ls.push(chars_of("# oldpilot config"));
    ls.push(chars_of("# Lines are key=value. Strings may be quoted."));
    ls.push(Vec::new());
    assert(views(ls@) =~= header_lines());
    let ghost acc1 = views(ls@);
    match &c.default_model {
        Some(m) => {
            ls.push(quoted_line_chars("default_model", m));
        },
        None => {},
    }
    assert(views(ls@) =~= acc1 + opt_quoted_line("default_model"@, c@.default_model));
    let ghost acc2 = views(ls@);
    match c.confirm_execute {
        Some(b) => {
            let mut l = chars_of("confirm_execute=");
            let mut w = if b {
                chars_of("true")
            } else {
                chars_of("false")
            };
            l.append(&mut w);
            assert(l@ =~= confirm_line(b));
            ls.push(l);
        },
        None => {},
    }
    let ghost cl = match c@.confirm_execute {
        Some(b) => seq![confirm_line(b)],
        None => Seq::<Seq<char>>::empty(),
    };
    assert(views(ls@) =~= acc2 + cl);
    let ghost acc3 = views(ls@);
    match &c.copilot_bin {
        Some(m) => {
            ls.push(quoted_line_chars("copilot_bin", m));
        },
        None => {},
    }
    assert(views(ls@) =~= acc3 + opt_quoted_line("copilot_bin"@, c@.copilot_bin));
    let ghost acc4 = views(ls@);
    match &c.shell {
        Some(m) => {
            ls.push(quoted_line_chars("shell", m));
        },
        None => {},
    }
    assert(views(ls@) =~= acc4 + opt_quoted_line("shell"@, c@.shell));
    assert(views(ls@) =~= config_lines(c@));
    join_terminated(&ls)
}

/// `base` with the relative path `comp` joined to it (as `Path::join` joins a
/// relative path on Unix: a separator goes between them unless `base` is empty or
/// already ends in one).
pub open spec fn path_join(base: Seq<char>, comp: Seq<char>) -> Seq<char> {
    if base.len() == 0 || base.last() == '/' {
        base + comp
    } else {
        base + seq!['/'] + comp
    }
}

/// Where the configuration file lies, given `XDG_CONFIG_HOME` and `HOME`:
/// `oldpilot/config` under `XDG_CONFIG_HOME` where that is set, else under
/// `$HOME/.config`; `None` where neither is set.
pub open spec fn config_path_for(xdg: Option<Seq<char>>, home: Option<Seq<char>>) -> Option<
    Seq<char>,
> {
    let base = match xdg {
        Some(x) => Some(x),
        None => match home {
            Some(h) => Some(path_join(h, ".config"@)),
            None => None,
        },
    };
    match base {
        Some(b) => Some(path_join(path_join(b, "oldpilot"@), "config"@)),
        None => None,
    }
}

/// Why no configuration path could be made.
#[derive(Clone, Copy, Debug, PartialEq, Eq)]
pub enum ConfigPathError {
    /// Neither `HOME` nor `XDG_CONFIG_HOME` is set.
    HomeUnset,
}

impl ConfigPathError {
    /// The message that reports the error.
    pub fn message(&self) -> (s: String)
        ensures
            s@ == "HOME or XDG_CONFIG_HOME is not set"@,
    {
        "HOME or XDG_CONFIG_HOME is not set".to_owned()
    }
}

/// `base` with the relative path `comp` joined to it.
pub fn join_path(base: &str, comp: &str) -> (r: String)
    ensures
        r@ == path_join(base@, comp@),
{
    let b = chars_of(base);
    let mut r = string_of(&b);
    if b.len() > 0 && b[b.len() - 1] != '/' {
        push_char(&mut r, '/');
    }
    let cv = chars_of(comp);
    push_chars(&mut r, &cv);
    r
}

/// The path of the configuration file, given the values of `XDG_CONFIG_HOME` and
/// `HOME`.
pub fn config_path(xdg: Option<String>, home: Option<String>) -> (r: Result<
    String,
    ConfigPathError,
>)
    ensures
        match config_path_for(opt_view(xdg), opt_view(home)) {
            Some(p) => r matches Ok(s) && s@ == p,
            None => r == Err::<String, ConfigPathError>(ConfigPathError::HomeUnset),
        },
{
    let base = match xdg {
        Some(x) => x,
        None => match home {
            Some(h) => join_path(h.as_str(), ".config"),
            None => {
                return Err(ConfigPathError::HomeUnset);
            },
        },
    };
    let dir = join_path(base.as_str(), "oldpilot");
    Ok(join_path(dir.as_str(), "config"))
}

/// A text setting that a written file gives back unchanged: a non-empty text
/// without double quotes and without line feeds.
pub open spec fn savable_text(o: Option<Seq<char>>) -> bool {
    match o {
        Some(v) => v.len() > 0 && !v.contains('"') && !v.contains('\n'),
        None => true,
    }
}

/// A configuration whose text settings are all savable.
pub open spec fn savable(c: ConfigView) -> bool {
    &&& savable_text(c.default_model)
    &&& savable_text(c.copilot_bin)
    &&& savable_text(c.shell)
}

proof fn lemma_split_append_plain(s: Seq<char>, l: Seq<char>, sep: char)
    requires
        !l.contains(sep),
    ensures
        split_on(s + l, sep) == split_on(s, sep).update(
            split_on(s, sep).len() - 1,
            split_on(s, sep).last() + l,
        ),
    decreases l.len(),
{
    lemma_split_on_len(s, sep);
    if l.len() == 0 {
        assert(s + l =~= s);
        assert(split_on(s, sep).last() + l =~= split_on(s, sep).last());
        assert(split_on(s, sep).update(split_on(s, sep).len() - 1, split_on(s, sep).last())
            =~= split_on(s, sep));
    } else {
        let l0 = l.drop_last();
        assert(!l0.contains(sep)) by {
            if l0.contains(sep) {
                let j = choose|j: int| 0 <= j < l0.len() && l0[j] == sep;
                assert(l[j] == sep);
            }
        }
        lemma_split_append_plain(s, l0, sep);
        assert((s + l).drop_last() =~= s + l0);
        assert((s + l).last() == l.last());
        assert(l[l.len() - 1] != sep);
        let p = split_on(s + l0, sep);
        assert(split_on(s + l, sep) == p.update(p.len() - 1, p.last().push(l.last())));
        assert(split_on(s, sep).last() + l0 + seq![l.last()] =~= split_on(s, sep).last() + l);
        assert(p.last().push(l.last()) =~= split_on(s, sep).last() + l);
        assert(split_on(s + l, sep) =~= split_on(s, sep).update(
            split_on(s, sep).len() - 1,
            split_on(s, sep).last() + l,
        ));
    }
}

proof fn lemma_split_terminated(ls: Seq<Seq<char>>)
    requires
        forall|i: int| 0 <= i < ls.len() ==> !(#[trigger] ls[i]).contains('\n'),
    ensures
        split_on(terminated(ls), '\n') == ls.push(Seq::<char>::empty()),
    decreases ls.len(),
{
    if ls.len() == 0 {
        assert(split_on(terminated(ls), '\n') =~= ls.push(Seq::<char>::empty()));
    } else {
        let ls0 = ls.drop_last();
        assert forall|i: int| 0 <= i < ls0.len() implies !(#[trigger] ls0[i]).contains('\n') by {
            assert(ls0[i] == ls[i]);
        }
        lemma_split_terminated(ls0);
        let t = terminated(ls0);
        let l = ls.last();
        assert(!l.contains('\n'));
        lemma_split_append_plain(t, l, '\n');
        let tt = terminated(ls);
        assert(tt.drop_last() =~= t + l);
        assert(tt.last() == '\n');
        assert(split_on(t, '\n').update(split_on(t, '\n').len() - 1, split_on(t, '\n').last() + l)
            =~= ls);
    }
}

proof fn lemma_lines_terminated(ls: Seq<Seq<char>>)
    requires
        forall|i: int| 0 <= i < ls.len() ==> !(#[trigger] ls[i]).contains('\n'),
        forall|i: int| 0 <= i < ls.len() ==> strip_cr(#[trigger] ls[i]) == ls[i],
    ensures
        lines(terminated(ls)) == ls,
{
    lemma_split_terminated(ls);
    let t = terminated(ls);
    if ls.len() > 0 {
        assert(t.last() == '\n');
    }
    let p = split_on(t, '\n');
    assert(p.drop_last() =~= ls);
    assert(p.drop_last().map_values(|l: Seq<char>| strip_cr(l)) =~= ls);
}

proof fn lemma_parse_lines_append(c: ConfigView, a: Seq<Seq<char>>, b: Seq<Seq<char>>)
    ensures
        parse_lines(c, a + b) == parse_lines(parse_lines(c, a), b),
    decreases b.len(),
{
    if b.len() == 0 {
        assert(a + b =~= a);
    } else {
        lemma_parse_lines_append(c, a, b.drop_last());
        assert((a + b).drop_last() =~= a + b.drop_last());
        assert((a + b).last() == b.last());
    }
}

proof fn lemma_parse_single(c: ConfigView, l: Seq<char>)
    ensures
        parse_lines(c, seq![l]) == parse_line(c, l),
{
    assert(seq![l].drop_last() =~= Seq::<Seq<char>>::empty());
    assert(parse_lines(c, Seq::<Seq<char>>::empty()) == c);
    assert(seq![l].last() == l);
}

proof fn lemma_escape_plain(v: Seq<char>)
    requires
        !v.contains('"'),
    ensures
        escape_quotes(v) == v,
    decreases v.len(),
{
    if v.len() > 0 {
        let v0 = v.drop_last();
        assert(!v0.contains('"')) by {
            if v0.contains('"') {
                let j = choose|j: int| 0 <= j < v0.len() && v0[j] == '"';
                assert(v[j] == '"');
            }
        }
        lemma_escape_plain(v0);
        assert(v[v.len() - 1] != '"');
        assert(v0 + seq![v.last()] =~= v);
    }
}

/// A line that is already trimmed: its first and last characters are not white space.
proof fn lemma_trim_noop(l: Seq<char>)
    requires
        l.len() > 0,
        !is_ws(l[0]),
        !is_ws(l.last()),
    ensures
        trim(l) == l,
{
    assert(trim_start(l) == l);
}

proof fn lemma_parse_comment(c: ConfigView, l: Seq<char>)
    requires
        l.len() > 0,
        l[0] == '#',
        !is_ws(l.last()),
    ensures
        parse_line(c, l) == c,
{
    lemma_trim_noop(l);
}

proof fn lemma_parse_setting(c: ConfigView, key: Seq<char>, eq: int, l: Seq<char>)
    requires
        l.len() > eq + 1,
        0 < eq,
        l.subrange(0, eq) == key,
        l[eq] == '=',
        !key.contains('='),
        !is_ws(key[0]),
        !is_ws(key.last()),
        key[0] != '#',
        !is_ws(l[eq + 1]),
        !is_ws(l.last()),
    ensures
        parse_line(c, l) == apply_setting(
            c,
            key,
            unquote(l.subrange(eq + 1, l.len() as int)),
        ),
{
    assert(l[0] == key[0]);
    lemma_trim_noop(l);
    lemma_index_of(l, '=');
    let k = index_of(l, '=');
    if k == -1 {
        assert(l[eq] != '=');
    }
    if k < eq {
        assert(key[k] == l[k]);
    }
    if k > eq {
        assert(l[eq] != '=');
    }
    assert(k == eq);
    lemma_trim_noop(key);
    let v = l.subrange(eq + 1, l.len() as int);
    assert(v[0] == l[eq + 1]);
    assert(v.last() == l.last());
    lemma_trim_noop(v);
}

proof fn lemma_parse_quoted(c: ConfigView, key: Seq<char>, v: Seq<char>)
    requires
        key.len() > 0,
        !key.contains('='),
        !is_ws(key[0]),
        !is_ws(key.last()),
        key[0] != '#',
        !v.contains('"'),
    ensures
        parse_line(c, quoted_line(key, v)) == apply_setting(c, key, v),
{
    lemma_escape_plain(v);
    let l = quoted_line(key, v);
    let n = key.len() as int;
    assert(l =~= key + seq!['=', '"'] + v + seq!['"']);
    assert(l.subrange(0, n) =~= key);
    assert(l[n] == '=');
    assert(l[n + 1] == '"');
    lemma_parse_setting(c, key, n, l);
    let q = l.subrange(n + 1, l.len() as int);
    assert(q =~= seq!['"'] + v + seq!['"']);
    assert(q.subrange(1, q.len() - 1) =~= v);
}

proof fn lemma_parse_confirm(c: ConfigView, b: bool)
    ensures
        parse_line(c, confirm_line(b)) == (ConfigView { confirm_execute: Some(b), ..c }),
{
    reveal_strlit("confirm_execute=");
    reveal_strlit("confirm_execute");
    reveal_strlit("true");
    reveal_strlit("false");
    reveal_strlit("default_model");
    reveal_strlit("copilot_bin");
    reveal_strlit("shell");
    reveal_strlit("1");
    reveal_strlit("yes");
    reveal_strlit("0");
    reveal_strlit("no");
    let key = "confirm_execute"@;
    let l = confirm_line(b);
    let w = if b {
        "true"@
    } else {
        "false"@
    };
    assert(l =~= "confirm_execute="@ + w);
    assert(l.subrange(0, 15) =~= key);
    assert(!key.contains('=')) by {
        if key.contains('=') {
            let j = choose|j: int| 0 <= j < key.len() && key[j] == '=';
            assert(key[j] != '=');
        }
    }
    lemma_parse_setting(c, key, 15, l);
    let v = l.subrange(16, l.len() as int);
    assert(v =~= w);
    assert(unquote(v) == v);
    assert(bool_word(v) == Some(b));
}

proof fn lemma_no_char(l: Seq<char>, c: char)
    requires
        forall|j: int| 0 <= j < l.len() ==> l[j] != c,
    ensures
        !l.contains(c),
{
}

proof fn lemma_quoted_plain(key: Seq<char>, v: Seq<char>)
    requires
        !key.contains('\n'),
        !v.contains('\n'),
        !v.contains('"'),
    ensures
        !quoted_line(key, v).contains('\n'),
        strip_cr(quoted_line(key, v)) == quoted_line(key, v),
{
    lemma_escape_plain(v);
    let l = quoted_line(key, v);
    let n = key.len() as int;
    assert(l =~= key + seq!['=', '"'] + v + seq!['"']);
    assert forall|j: int| 0 <= j < l.len() implies l[j] != '\n' by {
        if j < n {
            assert(l[j] == key[j]);
        } else if n + 2 <= j < l.len() - 1 {
            assert(l[j] == v[j - n - 2]);
        }
    }
    lemma_no_char(l, '\n');
}

proof fn lemma_literal_plain(l: Seq<char>)
    requires
        forall|j: int| 0 <= j < l.len() ==> l[j] != '\n',
        l.len() > 0 ==> l.last() != '\r',
    ensures
        !l.contains('\n'),
        strip_cr(l) == l,
{
}

proof fn lemma_config_lines_plain(c: ConfigView)
    requires
        savable(c),
    ensures
        forall|i: int|
            0 <= i < config_lines(c).len() ==> !(#[trigger] config_lines(c)[i]).contains('\n')
                && strip_cr(config_lines(c)[i]) == config_lines(c)[i],
{
    reveal_strlit("# oldpilot config");
    reveal_strlit("# Lines are key=value. Strings may be quoted.");
    reveal_strlit("default_model");
    reveal_strlit("copilot_bin");
    reveal_strlit("shell");
    reveal_strlit("confirm_execute=");
    reveal_strlit("true");
    reveal_strlit("false");
    lemma_literal_plain("# oldpilot config"@);
    lemma_literal_plain("# Lines are key=value. Strings may be quoted."@);
    lemma_literal_plain(Seq::<char>::empty());
    lemma_literal_plain("default_model"@);
    lemma_literal_plain("copilot_bin"@);
    lemma_literal_plain("shell"@);
    let h = header_lines();
    let o1 = opt_quoted_line("default_model"@, c.default_model);
    let o2 = match c.confirm_execute {
        Some(b) => seq![confirm_line(b)],
        None => Seq::<Seq<char>>::empty(),
    };
    let o3 = opt_quoted_line("copilot_bin"@, c.copilot_bin);
    let o4 = opt_quoted_line("shell"@, c.shell);
    if c.default_model is Some {
        lemma_quoted_plain("default_model"@, c.default_model->0);
    }
    if c.copilot_bin is Some {
        lemma_quoted_plain("copilot_bin"@, c.copilot_bin->0);
    }
    if c.shell is Some {
        lemma_quoted_plain("shell"@, c.shell->0);
    }
    if c.confirm_execute is Some {
        let b = c.confirm_execute->0;
        let l = confirm_line(b);
        if b {
            assert(l =~= "confirm_execute="@ + "true"@);
        } else {
            assert(l =~= "confirm_execute="@ + "false"@);
        }
        lemma_literal_plain(l);
    }
    let ls = config_lines(c);
    assert(ls =~= h + o1 + o2 + o3 + o4);
    assert forall|i: int| 0 <= i < ls.len() implies !(#[trigger] ls[i]).contains('\n') && strip_cr(
        ls[i],
    ) == ls[i] by {
        if i < 3 {
            assert(ls[i] == h[i]);
        } else if i < 3 + o1.len() {
            assert(ls[i] == o1[i - 3]);
        } else if i < 3 + o1.len() + o2.len() {
            assert(ls[i] == o2[i - 3 - o1.len()]);
        } else if i < 3 + o1.len() + o2.len() + o3.len() {
            assert(ls[i] == o3[i - 3 - o1.len() - o2.len()]);
        } else {
            assert(ls[i] == o4[i - 3 - o1.len() - o2.len() - o3.len()]);
        }
    }
}

proof fn lemma_keys()
    ensures
        forall|key: Seq<char>|
            #![trigger key.len()]
            key == "default_model"@ || key == "copilot_bin"@ || key == "shell"@ ==> {
                &&& key.len() > 0
                &&& !key.contains('=')
                &&& !is_ws(key[0])
                &&& !is_ws(key.last())
                &&& key[0] != '#'
            },
        "default_model"@ != "copilot_bin"@,
        "default_model"@ != "shell"@,
        "copilot_bin"@ != "shell"@,
        "default_model"@ != "confirm_execute"@,
        "copilot_bin"@ != "confirm_execute"@,
        "shell"@ != "confirm_execute"@,
{
    reveal_strlit("default_model");
    reveal_strlit("copilot_bin");
    reveal_strlit("shell");
    reveal_strlit("confirm_execute");
    assert("default_model"@.len() == 13);
    assert("copilot_bin"@.len() == 11);
    assert("shell"@.len() == 5);
    assert("confirm_execute"@.len() == 15);
    assert forall|key: Seq<char>|
        #![trigger key.len()]
        key == "default_model"@ || key == "copilot_bin"@ || key == "shell"@ implies {
            &&& key.len() > 0
            &&& !key.contains('=')
            &&& !is_ws(key[0])
            &&& !is_ws(key.last())
            &&& key[0] != '#'
        } by {
        assert forall|j: int| 0 <= j < key.len() implies key[j] != '=' by {}
        lemma_no_char(key, '=');
    }
}

proof fn lemma_parse_header(c: ConfigView)
    ensures
        parse_lines(c, header_lines()) == c,
{
    reveal_strlit("# oldpilot config");
    reveal_strlit("# Lines are key=value. Strings may be quoted.");
    let h = header_lines();
    let l0 = "# oldpilot config"@;
    let l1 = "# Lines are key=value. Strings may be quoted."@;
    lemma_parse_comment(c, l0);
    lemma_parse_comment(c, l1);
    assert(h =~= seq![l0] + seq![l1] + seq![Seq::<char>::empty()]);
    lemma_parse_lines_append(c, seq![l0] + seq![l1], seq![Seq::<char>::empty()]);
    lemma_parse_lines_append(c, seq![l0], seq![l1]);
    lemma_parse_single(c, l0);
    lemma_parse_single(c, l1);
    lemma_parse_single(c, Seq::<char>::empty());
    assert(trim(Seq::<char>::empty()) == Seq::<char>::empty());
}

proof fn lemma_parse_opt_quoted(c: ConfigView, key: Seq<char>, o: Option<Seq<char>>)
    requires
        key == "default_model"@ || key == "copilot_bin"@ || key == "shell"@,
        savable_text(o),
    ensures
        parse_lines(c, opt_quoted_line(key, o)) == match o {
            Some(v) => apply_setting(c, key, v),
            None => c,
        },
{
    lemma_keys();
    assert(key.len() > 0);
    let ls = opt_quoted_line(key, o);
    if o is Some {
        lemma_parse_single(c, ls[0]);
        assert(ls =~= seq![ls[0]]);
        lemma_parse_quoted(c, key, o->0);
    }
}

/// A configuration file as written gives back, when read, the configuration it
/// was written from, for every configuration whose text settings are non-empty
/// and free of double quotes and line feeds.
pub proof fn lemma_read_after_write(c: ConfigView)
    requires
        savable(c),
    ensures
        parse_text(config_text(c)) == c,
{
    let ls = config_lines(c);
    let h = header_lines();
    let o1 = opt_quoted_line("default_model"@, c.default_model);
    let o2 = match c.confirm_execute {
        Some(b) => seq![confirm_line(b)],
        None => Seq::<Seq<char>>::empty(),
    };
    let o3 = opt_quoted_line("copilot_bin"@, c.copilot_bin);
    let o4 = opt_quoted_line("shell"@, c.shell);
    lemma_config_lines_plain(c);
    lemma_lines_terminated(ls);
    let e = empty_config();
    lemma_keys();
    lemma_parse_lines_append(e, h + o1 + o2 + o3, o4);
    lemma_parse_lines_append(e, h + o1 + o2, o3);
    lemma_parse_lines_append(e, h + o1, o2);
    lemma_parse_lines_append(e, h, o1);
    lemma_parse_header(e);
    let c1 = parse_lines(e, o1);
    lemma_parse_opt_quoted(e, "default_model"@, c.default_model);
    assert(c1 == (ConfigView { default_model: c.default_model, ..e }));
    let c2 = parse_lines(c1, o2);
    assert(c2 == (ConfigView { confirm_execute: c.confirm_execute, ..c1 })) by {
        if o2.len() > 0 {
            lemma_parse_single(c1, o2[0]);
            lemma_parse_confirm(c1, c.confirm_execute->0);
        }
    }
    let c3 = parse_lines(c2, o3);
    lemma_parse_opt_quoted(c2, "copilot_bin"@, c.copilot_bin);
    assert(c3 == (ConfigView { copilot_bin: c.copilot_bin, ..c2 }));
    let c4 = parse_lines(c3, o4);
    lemma_parse_opt_quoted(c3, "shell"@, c.shell);
    assert(c4 == (ConfigView { shell: c.shell, ..c3 }));
    assert(ls == h + o1 + o2 + o3 + o4);
}

/// One of the four setting names that the file format knows.
pub open spec fn known_key(k: Seq<char>) -> bool {
    k == "default_model"@ || k == "confirm_execute"@ || k == "copilot_bin"@ || k == "shell"@
}

/// A line that the reader ignores whatever the configuration: once trimmed it is
/// empty, starts with `#`, has no `=`, or names before its first `=` a setting
/// that the format does not know.
pub open spec fn ignored_line(line: Seq<char>) -> bool {
    let l = trim(line);
    ||| l.len() == 0
    ||| l[0] == '#'
    ||| index_of(l, '=') < 0
    ||| !known_key(trim(l.subrange(0, index_of(l, '='))))
}

/// An ignored line leaves the configuration as it was.
pub proof fn lemma_ignored_line(c: ConfigView, line: Seq<char>)
    requires
        ignored_line(line),
    ensures
        parse_line(c, line) == c,
{
}

proof fn lemma_ignored_lines(c: ConfigView, ins: Seq<Seq<char>>)
    requires
        forall|i: int| 0 <= i < ins.len() ==> ignored_line(#[trigger] ins[i]),
    ensures
        parse_lines(c, ins) == c,
    decreases ins.len(),
{
    if ins.len() > 0 {
        let ins0 = ins.drop_last();
        assert forall|i: int| 0 <= i < ins0.len() implies ignored_line(#[trigger] ins0[i]) by {
            assert(ins0[i] == ins[i]);
        }
        lemma_ignored_lines(c, ins0);
        assert(ignored_line(ins[ins.len() - 1]));
    }
}

/// Ignored lines put anywhere among the lines of a file change nothing of what
/// is read.
pub proof fn lemma_insert_ignored_lines(
    c: ConfigView,
    a: Seq<Seq<char>>,
    ins: Seq<Seq<char>>,
    b: Seq<Seq<char>>,
)
    requires
        forall|i: int| 0 <= i < ins.len() ==> ignored_line(#[trigger] ins[i]),
    ensures
        parse_lines(c, a + ins + b) == parse_lines(c, a + b),
{
    lemma_parse_lines_append(c, a + ins, b);
    lemma_parse_lines_append(c, a, ins);
    lemma_ignored_lines(parse_lines(c, a), ins);
    lemma_parse_lines_append(c, a, b);
}

proof fn lemma_split_after_sep(a: Seq<char>, x: Seq<char>, sep: char)
    requires
        a.len() == 0 || a.last() == sep,
    ensures
        split_on(a + x, sep) == split_on(a, sep).drop_last() + split_on(x, sep),
    decreases x.len(),
{
    lemma_split_on_len(a, sep);
    lemma_split_on_len(x, sep);
    if x.len() == 0 {
        assert(a + x =~= a);
        if a.len() > 0 {
            lemma_split_on_len(a.drop_last(), sep);
        }
        assert(split_on(a, sep).last() == Seq::<char>::empty());
        assert(split_on(a, sep) =~= split_on(a, sep).drop_last() + split_on(x, sep));
    } else {
        let x0 = x.drop_last();
        lemma_split_after_sep(a, x0, sep);
        lemma_split_on_len(x0, sep);
        assert((a + x).drop_last() =~= a + x0);
        assert((a + x).last() == x.last());
        let p = split_on(a, sep).drop_last();
        let q0 = split_on(x0, sep);
        if x.last() == sep {
            assert((p + q0).push(Seq::<char>::empty()) =~= p + q0.push(Seq::<char>::empty()));
        } else {
            assert((p + q0).update((p + q0).len() - 1, (p + q0).last().push(x.last())) =~= p
                + q0.update(q0.len() - 1, q0.last().push(x.last())));
        }
    }
}

/// The lines of a text whose first part ends a line are the lines of that part,
/// then those of the rest.
pub proof fn lemma_lines_concat(a: Seq<char>, x: Seq<char>)
    requires
        a.len() == 0 || a.last() == '\n',
    ensures
        lines(a + x) == lines(a) + lines(x),
{
    lemma_split_after_sep(a, x, '\n');
    lemma_split_on_len(a, '\n');
    lemma_split_on_len(x, '\n');
    if a.len() > 0 {
        lemma_split_on_len(a.drop_last(), '\n');
    }
    let pa = split_on(a, '\n');
    let px = split_on(x, '\n');
    let p = split_on(a + x, '\n');
    if x.len() == 0 {
        assert(a + x =~= a);
        assert(lines(x) =~= Seq::<Seq<char>>::empty());
        assert(lines(a) + lines(x) =~= lines(a));
    } else {
        assert((a + x).last() == x.last());
        assert(p.drop_last() =~= pa.drop_last() + px.drop_last());
        assert(p.last() == px.last());
        assert(p.drop_last().map_values(|l: Seq<char>| strip_cr(l)) =~= pa.drop_last().map_values(
            |l: Seq<char>| strip_cr(l),
        ) + px.drop_last().map_values(|l: Seq<char>| strip_cr(l)));
        assert(lines(a) =~= pa.drop_last().map_values(|l: Seq<char>| strip_cr(l)));
        assert(lines(a + x) =~= lines(a) + lines(x));
    }
}

/// Whole lines, each of them ignored, put into a configuration file where a line
/// begins, change nothing of the configuration read from it.
pub proof fn lemma_insert_ignored_text(a: Seq<char>, m: Seq<char>, b: Seq<char>)
    requires
        a.len() == 0 || a.last() == '\n',
        m.len() == 0 || m.last() == '\n',
        forall|i: int| 0 <= i < lines(m).len() ==> ignored_line(#[trigger] lines(m)[i]),
    ensures
        parse_text(a + m + b) == parse_text(a + b),
{
    lemma_lines_concat(a, b);
    lemma_lines_concat(a, m);
    let am = a + m;
    if m.len() > 0 {
        assert(am.last() == m.last());
    } else {
        assert(am =~= a);
    }
    lemma_lines_concat(am, b);
    lemma_insert_ignored_lines(empty_config(), lines(a), lines(m), lines(b));
}

/// `w` is the lower-case word `lw`, each of its ASCII letters written in either case.
pub open spec fn any_case_of(w: Seq<char>, lw: Seq<char>) -> bool {
    &&& w.len() == lw.len()
    &&& forall|i: int|
        0 <= i < w.len() ==> w[i] == lw[i] || (97 <= (lw[i] as u32) && (lw[i] as u32) <= 122
            && (w[i] as u32) + 32 == (lw[i] as u32))
}

/// `q` is `w`, bare or enclosed in double or single quotes.
pub open spec fn written_as(q: Seq<char>, w: Seq<char>) -> bool {
    ||| q == w
    ||| q == seq!['"'] + w + seq!['"']
    ||| q == seq!['\''] + w + seq!['\'']
}

/// One of the six words that `confirm_execute` takes.
pub open spec fn confirm_word(lw: Seq<char>) -> bool {
    lw == "false"@ || lw == "0"@ || lw == "no"@ || lw == "true"@ || lw == "1"@ || lw == "yes"@
}

proof fn lemma_word_chars(w: Seq<char>, lw: Seq<char>)
    requires
        any_case_of(w, lw),
        confirm_word(lw),
    ensures
        w.len() > 0,
        forall|i: int|
            0 <= i < w.len() ==> {
                let u = #[trigger] w[i] as u32;
                (48 <= u && u <= 57) || (65 <= u && u <= 90) || (97 <= u && u <= 122)
            },
        forall|i: int| 0 <= i < w.len() ==> lower_code(#[trigger] w[i]) == lw[i] as u32,
{
    reveal_strlit("false");
    reveal_strlit("0");
    reveal_strlit("no");
    reveal_strlit("true");
    reveal_strlit("1");
    reveal_strlit("yes");
    assert forall|i: int| 0 <= i < lw.len() implies {
        let u = #[trigger] lw[i] as u32;
        (48 <= u && u <= 57) || (97 <= u && u <= 122)
    } by {}
}

proof fn lemma_bool_word_of(w: Seq<char>, lw: Seq<char>)
    requires
        any_case_of(w, lw),
        confirm_word(lw),
    ensures
        bool_word(w) == Some(lw == "true"@ || lw == "1"@ || lw == "yes"@),
{
    lemma_word_chars(w, lw);
    reveal_strlit("false");
    reveal_strlit("0");
    reveal_strlit("no");
    reveal_strlit("true");
    reveal_strlit("1");
    reveal_strlit("yes");
    assert(eq_ignore_case(w, lw));
    if lw == "0"@ {
        assert(lower_code(w[0]) == 48);
        assert(!eq_ignore_case(w, "1"@));
    }
    if lw == "1"@ {
        assert(lower_code(w[0]) == 49);
        assert(!eq_ignore_case(w, "0"@));
    }
}

proof fn lemma_parse_confirm_word(c: ConfigView, q: Seq<char>, w: Seq<char>, lw: Seq<char>)
    requires
        written_as(q, w),
        any_case_of(w, lw),
        confirm_word(lw),
    ensures
        parse_line(c, "confirm_execute="@ + q) == (ConfigView {
            confirm_execute: Some(lw == "true"@ || lw == "1"@ || lw == "yes"@),
            ..c
        }),
        !("confirm_execute="@ + q).contains('\n'),
        strip_cr("confirm_execute="@ + q) == "confirm_execute="@ + q,
{
    reveal_strlit("confirm_execute=");
    reveal_strlit("confirm_execute");
    lemma_keys();
    lemma_word_chars(w, lw);
    lemma_bool_word_of(w, lw);
    let key = "confirm_execute"@;
    let l = "confirm_execute="@ + q;
    assert(l.subrange(0, 15) =~= key);
    assert(!key.contains('=')) by {
        if key.contains('=') {
            let j = choose|j: int| 0 <= j < key.len() && key[j] == '=';
            assert(key[j] != '=');
        }
    }
    assert(w[0] as u32 >= 48);
    assert(w[w.len() - 1] as u32 >= 48);
    if q != w {
        assert(q.len() == w.len() + 2);
        assert(q.subrange(1, q.len() - 1) =~= w);
    }
    assert(!is_ws(l[16]));
    assert(!is_ws(l.last()));
    lemma_parse_setting(c, key, 15, l);
    assert(unquote(l.subrange(16, l.len() as int)) == w) by {
        assert(l.subrange(16, l.len() as int) =~= q);
    }
    assert forall|j: int| 0 <= j < l.len() implies l[j] != '\n' by {
        if j >= 16 {
            let k = j - 16;
            assert(l[j] == q[k]);
            if q != w && 0 < k < q.len() - 1 {
                assert(q[k] == w[k - 1]);
            }
        }
    }
    lemma_no_char(l, '\n');
}

/// A `confirm_execute` line that ends a file decides whether execution is
/// confirmed: the value `false`, `0` or `no` switches confirmation off and `true`,
/// `1` or `yes` switches it on, each in any case of its ASCII letters and bare or
/// quoted; the other settings are those that the lines before it give.
pub proof fn lemma_confirm_execute_words(a: Seq<char>, q: Seq<char>, w: Seq<char>, lw: Seq<char>)
    requires
        a.len() == 0 || a.last() == '\n',
        written_as(q, w),
        any_case_of(w, lw),
        lw == "false"@ || lw == "0"@ || lw == "no"@ || lw == "true"@ || lw == "1"@ || lw == "yes"@,
    ensures
        parse_text(a + "confirm_execute="@ + q + seq!['\n']).confirm_execute == Some(
            lw == "true"@ || lw == "1"@ || lw == "yes"@,
        ),
        parse_text(a + "confirm_execute="@ + q + seq!['\n']).default_model == parse_text(a).default_model,
        parse_text(a + "confirm_execute="@ + q + seq!['\n']).copilot_bin == parse_text(a).copilot_bin,
        parse_text(a + "confirm_execute="@ + q + seq!['\n']).shell == parse_text(a).shell,
{
    let l = "confirm_execute="@ + q;
    let t = a + "confirm_execute="@ + q + seq!['\n'];
    lemma_parse_confirm_word(parse_text(a), q, w, lw);
    assert(terminated(seq![l]) =~= l + seq!['\n']) by {
        assert(seq![l].drop_last() =~= Seq::<Seq<char>>::empty());
        assert(terminated(Seq::<Seq<char>>::empty()) == Seq::<char>::empty());
        assert(seq![l].last() == l);
    }
    lemma_lines_terminated(seq![l]);
    assert(t =~= a + terminated(seq![l]));
    lemma_lines_concat(a, terminated(seq![l]));
    lemma_parse_lines_append(empty_config(), lines(a), seq![l]);
    lemma_parse_single(parse_text(a), l);
}

/// The setting named `key` of a configuration.
pub open spec fn text_setting(c: ConfigView, key: Seq<char>) -> Option<Seq<char>> {
    if key == "default_model"@ {
        c.default_model
    } else if key == "copilot_bin"@ {
        c.copilot_bin
    } else {
        c.shell
    }
}

/// A line `key=value` that ends a file sets the text setting named `key` (one of
/// `default_model`, `copilot_bin`, `shell`) to the value, written bare or in
/// double or single quotes, and leaves the other settings as the lines before it
/// give them.
pub proof fn lemma_text_setting_words(a: Seq<char>, key: Seq<char>, q: Seq<char>, v: Seq<char>)
    requires
        a.len() == 0 || a.last() == '\n',
        key == "default_model"@ || key == "copilot_bin"@ || key == "shell"@,
        written_as(q, v),
        v.len() > 0,
        !is_ws(v[0]),
        !is_ws(v.last()),
        v[0] != '"',
        v[0] != '\'',
        !v.contains('\n'),
    ensures
        ({
            let r = parse_text(a + key + seq!['='] + q + seq!['\n']);
            let before = parse_text(a);
            &&& r.confirm_execute == before.confirm_execute
            &&& r.default_model == if key == "default_model"@ {
                Some(v)
            } else {
                before.default_model
            }
            &&& r.copilot_bin == if key == "copilot_bin"@ {
                Some(v)
            } else {
                before.copilot_bin
            }
            &&& r.shell == if key == "shell"@ {
                Some(v)
            } else {
                before.shell
            }
        }),
{
    lemma_keys();
    let l = key + seq!['='] + q;
    let t = a + key + seq!['='] + q + seq!['\n'];
    let n = key.len() as int;
    assert(l.subrange(0, n) =~= key);
    assert(l[n] == '=');
    if q != v {
        assert(q.len() == v.len() + 2);
        assert(q.subrange(1, q.len() - 1) =~= v);
    }
    assert(l.subrange(n + 1, l.len() as int) =~= q);
    assert(l[n + 1] == q[0]);
    assert(l.last() == q.last());
    let c0 = parse_text(a);
    lemma_parse_setting(c0, key, n, l);
    assert(unquote(q) == v);
    assert forall|j: int| 0 <= j < l.len() implies l[j] != '\n' by {
        if j < n {
            assert(l[j] == key[j]);
            reveal_strlit("default_model");
            reveal_strlit("copilot_bin");
            reveal_strlit("shell");
        } else if j > n {
            let k = j - n - 1;
            assert(l[j] == q[k]);
            if q == v {
                assert(v[k] != '\n');
            } else if 0 < k < q.len() - 1 {
                assert(q[k] == v[k - 1]);
                assert(v[k - 1] != '\n');
            }
        }
    }
    lemma_no_char(l, '\n');
    assert(l.last() != '\r');
    assert(terminated(seq![l]) =~= l + seq!['\n']) by {
        assert(seq![l].drop_last() =~= Seq::<Seq<char>>::empty());
        assert(terminated(Seq::<Seq<char>>::empty()) == Seq::<char>::empty());
        assert(seq![l].last() == l);
    }
    assert(strip_cr(l) == l);
    lemma_lines_terminated(seq![l]);
    assert(t =~= a + terminated(seq![l]));
    lemma_lines_concat(a, terminated(seq![l]));
    lemma_parse_lines_append(empty_config(), lines(a), seq![l]);
    lemma_parse_single(c0, l);
}

/// A value whose quotes do not match is read with its quotes.
pub proof fn lemma_mismatched_quotes_kept(v: Seq<char>)
    requires
        v.len() >= 2,
        (v[0] == '"' && v.last() == '\'') || (v[0] == '\'' && v.last() == '"'),
    ensures
        unquote(v) == v,
{
}

/// Escaping works character by character: a double quote becomes a backslash
/// and a double quote, any other character stays.
pub proof fn lemma_escape_quotes(a: Seq<char>, b: Seq<char>, x: char)
    ensures
        escape_quotes(a + b) == escape_quotes(a) + escape_quotes(b),
        escape_quotes(seq!['"']) == seq!['\\', '"'],
        x != '"' ==> escape_quotes(seq![x]) == seq![x],
    decreases b.len(),
{
    assert(seq!['"'].drop_last() =~= Seq::<char>::empty());
    assert(seq![x].drop_last() =~= Seq::<char>::empty());
    assert(escape_quotes(Seq::<char>::empty()) == Seq::<char>::empty());
    if b.len() == 0 {
        assert(a + b =~= a);
        assert(escape_quotes(a) + escape_quotes(b) =~= escape_quotes(a));
    } else {
        lemma_escape_quotes(a, b.drop_last(), x);
        assert((a + b).drop_last() =~= a + b.drop_last());
        assert((a + b).last() == b.last());
        let tail = if b.last() == '"' {
            seq!['\\', '"']
        } else {
            seq![b.last()]
        };
        assert(escape_quotes(a) + escape_quotes(b.drop_last()) + tail =~= escape_quotes(a) + (
        escape_quotes(b.drop_last()) + tail));
    }
}

proof fn lemma_terminated_concat(x: Seq<Seq<char>>, y: Seq<Seq<char>>)
    ensures
        terminated(x + y) == terminated(x) + terminated(y),
    decreases y.len(),
{
    if y.len() == 0 {
        assert(x + y =~= x);
        assert(terminated(x) + terminated(y) =~= terminated(x));
    } else {
        lemma_terminated_concat(x, y.drop_last());
        assert((x + y).drop_last() =~= x + y.drop_last());
        assert((x + y).last() == y.last());
        assert(terminated(x) + terminated(y.drop_last()) + y.last() + seq!['\n'] =~= terminated(x)
            + (terminated(y.drop_last()) + y.last() + seq!['\n']));
    }
}

proof fn lemma_terminated_one(l: Seq<char>)
    ensures
        terminated(seq![l]) == l + seq!['\n'],
{
    assert(seq![l].drop_last() =~= Seq::<Seq<char>>::empty());
    assert(terminated(Seq::<Seq<char>>::empty()) == Seq::<char>::empty());
    assert(seq![l].last() == l);
    assert(Seq::<char>::empty() + l + seq!['\n'] =~= l + seq!['\n']);
}

/// The text written for a text setting: `key="value"` with its double quotes
/// escaped, and a line feed; nothing where the setting is unset.
pub open spec fn written_text_setting(key: Seq<char>, o: Option<Seq<char>>) -> Seq<char> {
    match o {
        Some(v) => key + "=\""@ + escape_quotes(v) + "\"\n"@,
        None => Seq::empty(),
    }
}

proof fn lemma_terminated_header()
    ensures
        terminated(header_lines())
            == "# oldpilot config\n# Lines are key=value. Strings may be quoted.\n\n"@,
{
    reveal_strlit("# oldpilot config\n# Lines are key=value. Strings may be quoted.\n\n");
    reveal_strlit("# oldpilot config");
    reveal_strlit("# Lines are key=value. Strings may be quoted.");
    let l0 = "# oldpilot config"@;
    let l1 = "# Lines are key=value. Strings may be quoted."@;
    let h = header_lines();
    assert(h =~= seq![l0] + seq![l1] + seq![Seq::<char>::empty()]);
    lemma_terminated_concat(seq![l0] + seq![l1], seq![Seq::<char>::empty()]);
    lemma_terminated_concat(seq![l0], seq![l1]);
    lemma_terminated_one(l0);
    lemma_terminated_one(l1);
    lemma_terminated_one(Seq::<char>::empty());
    assert(terminated(h) =~= "# oldpilot config\n# Lines are key=value. Strings may be quoted.\n\n"@);
}

proof fn lemma_terminated_text_setting(key: Seq<char>, o: Option<Seq<char>>)
    ensures
        terminated(opt_quoted_line(key, o)) == written_text_setting(key, o),
{
    reveal_strlit("=\"");
    reveal_strlit("\"\n");
    let ls = opt_quoted_line(key, o);
    if o is Some {
        lemma_terminated_one(ls[0]);
        assert(ls =~= seq![ls[0]]);
        assert(terminated(ls) =~= written_text_setting(key, o));
    } else {
        assert(terminated(ls) =~= written_text_setting(key, o));
    }
}

proof fn lemma_terminated_confirm(o: Option<bool>)
    ensures
        terminated(
            match o {
                Some(b) => seq![confirm_line(b)],
                None => Seq::<Seq<char>>::empty(),
            },
        ) == match o {
            Some(true) => "confirm_execute=true\n"@,
            Some(false) => "confirm_execute=false\n"@,
            None => Seq::<char>::empty(),
        },
{
    reveal_strlit("confirm_execute=true\n");
    reveal_strlit("confirm_execute=false\n");
    reveal_strlit("confirm_execute=");
    reveal_strlit("true");
    reveal_strlit("false");
    if o is Some {
        lemma_terminated_one(confirm_line(o->0));
        assert(terminated(seq![confirm_line(o->0)]) =~= match o {
            Some(true) => "confirm_execute=true\n"@,
            Some(false) => "confirm_execute=false\n"@,
            None => Seq::<char>::empty(),
        });
    }
}

/// The written file: the header `# oldpilot config`, `# Lines are key=value.
/// Strings may be quoted.` and an empty line, then `default_model="…"`,
/// `confirm_execute=true` or `=false`, `copilot_bin="…"` and `shell="…"` for the
/// settings that are set, in that order, each line ended by a line feed.
pub proof fn lemma_written_format(c: ConfigView)
    ensures
        config_text(c) == "# oldpilot config\n# Lines are key=value. Strings may be quoted.\n\n"@
            + written_text_setting("default_model"@, c.default_model) + match c.confirm_execute {
            Some(true) => "confirm_execute=true\n"@,
            Some(false) => "confirm_execute=false\n"@,
            None => Seq::<char>::empty(),
        } + written_text_setting("copilot_bin"@, c.copilot_bin) + written_text_setting(
            "shell"@,
            c.shell,
        ),
{
    let h = header_lines();
    let o1 = opt_quoted_line("default_model"@, c.default_model);
    let o2 = match c.confirm_execute {
        Some(b) => seq![confirm_line(b)],
        None => Seq::<Seq<char>>::empty(),
    };
    let o3 = opt_quoted_line("copilot_bin"@, c.copilot_bin);
    let o4 = opt_quoted_line("shell"@, c.shell);
    lemma_terminated_concat(h + o1 + o2 + o3, o4);
    lemma_terminated_concat(h + o1 + o2, o3);
    lemma_terminated_concat(h + o1, o2);
    lemma_terminated_concat(h, o1);
    lemma_terminated_header();
    lemma_terminated_text_setting("default_model"@, c.default_model);
    lemma_terminated_text_setting("copilot_bin"@, c.copilot_bin);
    lemma_terminated_text_setting("shell"@, c.shell);
    lemma_terminated_confirm(c.confirm_execute);
    assert(config_lines(c) == h + o1 + o2 + o3 + o4);
}

/// How a text splits into lines: after text that ends a line, a line `l` ended by
/// a line feed adds `l` without one carriage return at its end, and a last line
/// `l` without a line feed adds `l` as it is.
pub proof fn lemma_lines_step(a: Seq<char>, l: Seq<char>)
    requires
        a.len() == 0 || a.last() == '\n',
        !l.contains('\n'),
    ensures
        lines(a + l + seq!['\n']) == lines(a).push(
            if l.len() > 0 && l.last() == '\r' {
                l.drop_last()
            } else {
                l
            },
        ),
        l.len() > 0 ==> lines(a + l) == lines(a).push(l),
{
    lemma_split_append_plain(Seq::<char>::empty(), l, '\n');
    assert(Seq::<char>::empty() + l =~= l);
    assert(split_on(Seq::<char>::empty(), '\n') =~= seq![Seq::<char>::empty()]);
    assert(split_on(l, '\n') =~= seq![l]);
    let t = l + seq!['\n'];
    assert(t.drop_last() =~= l);
    assert(split_on(t, '\n') =~= seq![l, Seq::<char>::empty()]);
    assert(lines(t) =~= seq![strip_cr(l)]);
    lemma_lines_concat(a, t);
    assert(a + l + seq!['\n'] =~= a + t);
    if l.len() > 0 {
        assert(lines(l) =~= seq![l]);
        lemma_lines_concat(a, l);
    }
}

} // verus!
