//! Character-level text helpers, each specified over `Seq<char>`.
use vstd::prelude::*;

verus! {

/// Unicode `White_Space`, the property that `char::is_whitespace` tests.
pub open spec fn is_ws(c: char) -> bool {
    let u = c as u32;
    ||| 9 <= u && u <= 13
    ||| u == 32
    ||| u == 0x85
    ||| u == 0xA0
    ||| u == 0x1680
    ||| 0x2000 <= u && u <= 0x200A
    ||| u == 0x2028
    ||| u == 0x2029
    ||| u == 0x202F
    ||| u == 0x205F
    ||| u == 0x3000
}

/// `s` without its leading white space.
pub open spec fn trim_start(s: Seq<char>) -> Seq<char>
    decreases s.len(),
{
    if s.len() > 0 && is_ws(s[0]) {
        trim_start(s.drop_first())
    } else {
        s
    }
}

/// `s` without its trailing white space.
pub open spec fn trim_end(s: Seq<char>) -> Seq<char>
    decreases s.len(),
{
    if s.len() > 0 && is_ws(s.last()) {
        trim_end(s.drop_last())
    } else {
        s
    }
}

/// `s` without leading and trailing white space (what `str::trim` returns).
pub open spec fn trim(s: Seq<char>) -> Seq<char> {
    trim_end(trim_start(s))
}

/// A text is blank when nothing is left of it once trimmed.
pub open spec fn is_blank(s: Seq<char>) -> bool {
    trim(s).len() == 0
}

/// The pieces of `s` between occurrences of `sep` (what `str::split(sep)` yields):
/// never empty, and one piece more than `s` has separators.
pub open spec fn split_on(s: Seq<char>, sep: char) -> Seq<Seq<char>>
    decreases s.len(),
{
    if s.len() == 0 {
        seq![Seq::<char>::empty()]
    } else {
        let p = split_on(s.drop_last(), sep);
        if s.last() == sep {
            p.push(Seq::<char>::empty())
        } else {
            p.update(p.len() - 1, p.last().push(s.last()))
        }
    }
}

/// A line without the carriage return that ended it.
pub open spec fn strip_cr(l: Seq<char>) -> Seq<char> {
    if l.len() > 0 && l.last() == '\r' {
        l.drop_last()
    } else {
        l
    }
}

/// The lines of `s`, as `str::lines` yields them: split at each line feed, no
/// empty last line after a final line feed, and a carriage return dropped from
/// the end of each line that a line feed ended.
pub open spec fn lines(s: Seq<char>) -> Seq<Seq<char>> {
    let p = split_on(s, '\n');
    let ended = p.drop_last().map_values(|l: Seq<char>| strip_cr(l));
    if s.len() == 0 || s.last() == '\n' {
        ended
    } else {
        ended.push(p.last())
    }
}

/// The texts held by a sequence of character vectors.
pub open spec fn views(v: Seq<Vec<char>>) -> Seq<Seq<char>> {
    v.map_values(|x: Vec<char>| x@)
}

/// The index of the first `c` in `s`, or -1 where there is none.
pub open spec fn index_of(s: Seq<char>, c: char) -> int
    decreases s.len(),
{
    if s.len() == 0 {
        -1
    } else {
        let i = index_of(s.drop_last(), c);
        if i >= 0 {
            i
        } else if s.last() == c {
            s.len() - 1
        } else {
            -1
        }
    }
}

pub proof fn lemma_split_on_len(s: Seq<char>, sep: char)
    ensures
        split_on(s, sep).len() >= 1,
    decreases s.len(),
{
    if s.len() > 0 {
        lemma_split_on_len(s.drop_last(), sep);
    }
}

pub proof fn lemma_index_of(s: Seq<char>, c: char)
    ensures
        -1 <= index_of(s, c) < s.len(),
        index_of(s, c) == -1 <==> (forall|j: int| 0 <= j < s.len() ==> s[j] != c),
        index_of(s, c) >= 0 ==> s[index_of(s, c)] == c,
        forall|j: int| 0 <= j < index_of(s, c) ==> s[j] != c,
    decreases s.len(),
{
    if s.len() > 0 {
        lemma_index_of(s.drop_last(), c);
        let i = index_of(s.drop_last(), c);
        if i == -1 {
            assert forall|j: int| 0 <= j < s.len() - 1 implies s[j] != c by {
                assert(s[j] == s.drop_last()[j]);
            }
        } else {
            assert(s[i] == s.drop_last()[i]);
            assert forall|j: int| 0 <= j < i implies s[j] != c by {
                assert(s[j] == s.drop_last()[j]);
            }
        }
    }
}

/// Whether `c` is white space.
pub fn is_whitespace(c: char) -> (b: bool)
    ensures
        b == is_ws(c),
{
    let u = c as u32;
    (9 <= u && u <= 13) || u == 32 || u == 0x85 || u == 0xA0 || u == 0x1680 || (0x2000 <= u && u
        <= 0x200A) || u == 0x2028 || u == 0x2029 || u == 0x202F || u == 0x205F || u == 0x3000
}

/// Appends one character to a `String` (`String::push`).
#[verifier::external_body]
pub(crate) fn push_char(s: &mut String, c: char)
    ensures
        final(s)@ == old(s)@.push(c),
{
    s.push(c);
}

/// The characters of `s`.
pub fn chars_of(s: &str) -> (v: Vec<char>)
    ensures
        v@ == s@,
{
    let n = s.unicode_len();
    let mut v: Vec<char> = Vec::new();
    let mut i: usize = 0;
    while i < n
        invariant
            n == s@.len(),
            i <= n,
            v@ == s@.subrange(0, i as int),
        decreases n - i,
    {
        let c = s.get_char(i);
        v.push(c);
        i = i + 1;
        assert(v@ =~= s@.subrange(0, i as int));
    }
    assert(v@ =~= s@);
    v
}

/// The `String` made of the characters of `v`.
pub fn string_of(v: &Vec<char>) -> (s: String)
    ensures
        s@ == v@,
{
    let mut s = String::new();
    let mut i: usize = 0;
    while i < v.len()
        invariant
            i <= v.len(),
            s@ == v@.subrange(0, i as int),
        decreases v.len() - i,
    {
        push_char(&mut s, v[i]);
        i = i + 1;
        assert(s@ =~= v@.subrange(0, i as int));
    }
    assert(s@ =~= v@);
    s
}

/// Appends the characters of `v` to `s`.
pub fn push_chars(s: &mut String, v: &Vec<char>)
    ensures
        final(s)@ == old(s)@ + v@,
{
    let mut i: usize = 0;
    while i < v.len()
        invariant
            i <= v.len(),
            s@ == old(s)@ + v@.subrange(0, i as int),
        decreases v.len() - i,
    {
        push_char(s, v[i]);
        i = i + 1;
        assert(s@ =~= old(s)@ + v@.subrange(0, i as int));
    }
    assert(v@.subrange(0, v.len() as int) =~= v@);
}

/// The characters of `v` from `lo` up to `hi`.
pub fn slice_chars(v: &Vec<char>, lo: usize, hi: usize) -> (r: Vec<char>)
    requires
        lo <= hi <= v.len(),
    ensures
        r@ == v@.subrange(lo as int, hi as int),
{
    let mut r: Vec<char> = Vec::new();
    let mut i: usize = lo;
    while i < hi
        invariant
            lo <= i <= hi <= v.len(),
            r@ == v@.subrange(lo as int, i as int),
        decreases hi - i,
    {
        r.push(v[i]);
        i = i + 1;
        assert(r@ =~= v@.subrange(lo as int, i as int));
    }
    r
}

/// The bounds of what is left of `v[lo..hi]` once trimmed.
pub fn trim_bounds(v: &Vec<char>, lo: usize, hi: usize) -> (r: (usize, usize))
    requires
        lo <= hi <= v.len(),
    ensures
        lo <= r.0 <= r.1 <= hi,
        v@.subrange(r.0 as int, r.1 as int) == trim(v@.subrange(lo as int, hi as int)),
{
    let mut a: usize = lo;
    while a < hi && is_whitespace(v[a])
        invariant
            lo <= a <= hi <= v.len(),
            trim_start(v@.subrange(a as int, hi as int)) == trim_start(
                v@.subrange(lo as int, hi as int),
            ),
        decreases hi - a,
    {
        assert(v@.subrange(a as int, hi as int).drop_first() =~= v@.subrange(a + 1, hi as int));
        a = a + 1;
    }
    assert(trim_start(v@.subrange(a as int, hi as int)) == v@.subrange(a as int, hi as int));
    let mut b: usize = hi;
    while b > a && is_whitespace(v[b - 1])
        invariant
            lo <= a <= b <= hi <= v.len(),
            trim_end(v@.subrange(a as int, b as int)) == trim(v@.subrange(lo as int, hi as int)),
        decreases b - a,
    {
        assert(v@.subrange(a as int, b as int).drop_last() =~= v@.subrange(a as int, b - 1));
        b = b - 1;
    }
    (a, b)
}

/// The trimmed characters of `v`.
pub fn trim_chars(v: &Vec<char>) -> (r: Vec<char>)
    ensures
        r@ == trim(v@),
{
    let (a, b) = trim_bounds(v, 0, v.len());
    assert(v@.subrange(0, v.len() as int) =~= v@);
    slice_chars(v, a, b)
}

/// Whether the text in `v` is blank.
pub fn blank_chars(v: &Vec<char>) -> (b: bool)
    ensures
        b == is_blank(v@),
{
    let (a, b) = trim_bounds(v, 0, v.len());
    assert(v@.subrange(0, v.len() as int) =~= v@);
    a == b
}

/// Whether `s` is blank.
pub fn blank_str(s: &str) -> (b: bool)
    ensures
        b == is_blank(s@),
{
    let v = chars_of(s);
    blank_chars(&v)
}

/// The index of the first `c` in `v`.
pub fn find_char(v: &Vec<char>, c: char) -> (r: Option<usize>)
    ensures
        match r {
            Some(i) => i == index_of(v@, c),
            None => index_of(v@, c) == -1,
        },
{
    proof {
        lemma_index_of(v@, c);
    }
    let mut i: usize = 0;
    while i < v.len()
        invariant
            i <= v.len(),
            forall|j: int| 0 <= j < i ==> v@[j] != c,
        decreases v.len() - i,
    {
        if v[i] == c {
            proof {
                lemma_index_of(v@, c);
                let k = index_of(v@, c);
                if k == -1 {
                    assert(v@[i as int] != c);
                } else if k < i {
                    assert(v@[k] != c);
                } else if k > i {
                    assert(v@[i as int] != c);
                }
            }
            return Some(i);
        }
        i = i + 1;
    }
    None
}

/// Whether the characters of `v` are those of `s`.
pub fn chars_eq(v: &Vec<char>, s: &str) -> (b: bool)
    ensures
        b == (v@ == s@),
{
    let w = chars_of(s);
    if v.len() != w.len() {
        return false;
    }
    let mut i: usize = 0;
    while i < v.len()
        invariant
            i <= v.len() == w.len(),
            w@ == s@,
            forall|j: int| 0 <= j < i ==> v@[j] == w@[j],
        decreases v.len() - i,
    {
        if v[i] != w[i] {
            return false;
        }
        i = i + 1;
    }
    assert(v@ =~= w@);
    true
}

/// The lines of the text `v` (what `str::lines` yields).
pub fn lines_of(v: &Vec<char>) -> (r: Vec<Vec<char>>)
    ensures
        views(r@) == lines(v@),
{
    let mut done: Vec<Vec<char>> = Vec::new();
    let mut cur: Vec<char> = Vec::new();
    let mut i: usize = 0;
    proof {
        assert(v@.subrange(0, 0) =~= Seq::<char>::empty());
    }
    while i < v.len()
        invariant
            i <= v.len(),
            ({
                let p = split_on(v@.subrange(0, i as int), '\n');
                &&& views(done@) == p.drop_last().map_values(|l: Seq<char>| strip_cr(l))
                &&& cur@ == p.last()
            }),
        decreases v.len() - i,
    {
        let ghost pre = v@.subrange(0, i as int);
        let ghost p = split_on(pre, '\n');
        proof {
            lemma_split_on_len(pre, '\n');
            assert(v@.subrange(0, i + 1).drop_last() =~= pre);
        }
        let c = v[i];
        let ghost done0 = done@;
        if c == '\n' {
            let l = strip_line_end(&cur);
            done.push(l);
            assert(views(done@) =~= views(done0).push(strip_cr(p.last())));
            cur = Vec::new();
            proof {
                let q = split_on(v@.subrange(0, i + 1), '\n');
                assert(q == p.push(Seq::<char>::empty()));
                assert(q.drop_last() =~= p);
                assert(p =~= p.drop_last().push(p.last()));
                assert(views(done@) =~= q.drop_last().map_values(|l: Seq<char>| strip_cr(l)));
            }
        } else {
            cur.push(c);
            proof {
                let q = split_on(v@.subrange(0, i + 1), '\n');
                assert(q == p.update(p.len() - 1, p.last().push(c)));
                assert(q.drop_last() =~= p.drop_last());
            }
        }
        i = i + 1;
    }
    let ghost p = split_on(v@, '\n');
    proof {
        assert(v@.subrange(0, v.len() as int) =~= v@);
        lemma_split_on_len(v@, '\n');
    }
    if v.len() == 0 || v[v.len() - 1] == '\n' {
        proof {
            if v.len() > 0 {
                let pre = v@.drop_last();
                lemma_split_on_len(pre, '\n');
            }
        }
        done
    } else {
        let ghost done0 = done@;
        done.push(cur);
        assert(views(done@) =~= views(done0).push(p.last()));
        proof {
            assert(views(done@) =~= p.drop_last().map_values(|l: Seq<char>| strip_cr(l)).push(
                p.last(),
            ));
        }
        done
    }
}

/// A line without the carriage return that ended it.
fn strip_line_end(l: &Vec<char>) -> (r: Vec<char>)
    ensures
        r@ == strip_cr(l@),
{
    if l.len() > 0 && l[l.len() - 1] == '\r' {
        slice_chars(l, 0, l.len() - 1)
    } else {
        slice_chars(l, 0, l.len())
    }
}

/// The white space that trimming removes is exactly the Unicode `White_Space`
/// characters: tab, line feed, vertical tab, form feed, carriage return, space,
/// next line, no-break space, ogham space mark, the spaces from en quad to hair
/// space, line and paragraph separator, narrow no-break space, medium
/// mathematical space and ideographic space.
pub proof fn lemma_white_space_chars(c: char)
    ensures
        is_ws(c) <==> (c == '\t' || c == '\n' || c == '\u{0B}' || c == '\u{0C}' || c == '\r' || c
            == ' ' || c == '\u{85}' || c == '\u{A0}' || c == '\u{1680}' || c == '\u{2000}' || c
            == '\u{2001}' || c == '\u{2002}' || c == '\u{2003}' || c == '\u{2004}' || c
            == '\u{2005}' || c == '\u{2006}' || c == '\u{2007}' || c == '\u{2008}' || c
            == '\u{2009}' || c == '\u{200A}' || c == '\u{2028}' || c == '\u{2029}' || c
            == '\u{202F}' || c == '\u{205F}' || c == '\u{3000}'),
{
}

} // verus!
