//! Text rules used while rendering: blank-line and noise-line detection,
//! ignorable-parse-error tests, URL punctuation splitting, tab-aware
//! indentation stripping, and character-safe truncation.

use vstd::prelude::*;

verus! {

use vstd::string::StrSliceExecFns;
use vstd::string::StringExecFns;

/// The characters counted as blank by the text rules: space and tab.
pub open spec fn spec_is_blank_char(c: char) -> bool {
    c == ' ' || c == '\t'
}

/// True if every character of `t` is a space or a tab.
pub open spec fn spec_is_blank(t: Seq<char>) -> bool {
    forall|i: int| 0 <= i < t.len() ==> spec_is_blank_char(#[trigger] t[i])
}

/// Collects the characters of `s` into a vector.
pub fn str_to_chars(s: &str) -> (v: Vec<char>)
    ensures
        v@ == s@,
{
    let n = s.unicode_len();
    let mut v: Vec<char> = Vec::new();
    let mut i: usize = 0;
    while i < n
        invariant
            n == s@.len(),
            i <= n,
            v@ == s@.take(i as int),
        decreases n - i,
    {
        let c = s.get_char(i);
        v.push(c);
        proof {
            assert(v@ =~= s@.take(i as int + 1));
        }
        i += 1;
    }
    proof {
        assert(v@ =~= s@);
    }
    v
}

/// Relies on `String::push`: appends one character to the string.
#[verifier::external_body]
fn push_char(s: &mut String, c: char)
    ensures
        final(s)@ == old(s)@.push(c),
{
    s.push(c)
}

/// Builds a string whose characters are exactly `v`.
pub fn chars_to_string(v: &Vec<char>) -> (s: String)
    ensures
        s@ == v@,
{
    let mut s = String::new();
    let n = v.len();
    let mut i: usize = 0;
    while i < n
        invariant
            n == v@.len(),
            i <= n,
            s@ == v@.take(i as int),
        decreases n - i,
    {
        let ghost prev = s@;
        push_char(&mut s, v[i]);
        proof {
            assert(s@ == prev.push(v@[i as int]));
            assert(s@ =~= v@.take(i as int + 1));
        }
        i += 1;
    }
    proof {
        assert(s@ =~= v@);
    }
    s
}

/// Compares two string slices character by character.
pub fn str_eq(a: &str, b: &str) -> (r: bool)
    ensures
        r == (a@ == b@),
{
    let na = a.unicode_len();
    let nb = b.unicode_len();
    if na != nb {
        proof {
            assert(a@ != b@) by {
                assert(a@.len() != b@.len());
            }
        }
        return false;
    }
    let mut i: usize = 0;
    while i < na
        invariant
            na == a@.len(),
            na == b@.len(),
            i <= na,
            forall|j: int| 0 <= j < i ==> a@[j] == b@[j],
        decreases na - i,
    {
        if a.get_char(i) != b.get_char(i) {
            return false;
        }
        i += 1;
    }
    proof {
        assert(a@ =~= b@);
    }
    true
}

/// True if `pat` occurs in `s` starting at position `i`.
pub open spec fn match_at(s: Seq<char>, pat: Seq<char>, i: int) -> bool {
    0 <= i && i + pat.len() <= s.len() && s.subrange(i, i + pat.len()) == pat
}

/// The position of the leftmost occurrence of `pat` in `s` at or after
/// `from`, if any.
pub open spec fn first_match_from(s: Seq<char>, pat: Seq<char>, from: int) -> Option<int>
    decreases s.len() - from,
{
    if from < 0 {
        first_match_from(s, pat, 0)
    } else if from + pat.len() > s.len() {
        None
    } else if pat.len() == 0 || match_at(s, pat, from) {
        Some(from)
    } else {
        first_match_from(s, pat, from + 1)
    }
}

/// True if `pat` occurs somewhere in `s`.
pub open spec fn spec_contains(s: Seq<char>, pat: Seq<char>) -> bool {
    exists|i: int| match_at(s, pat, i)
}

proof fn lemma_first_match_none(s: Seq<char>, pat: Seq<char>, from: int)
    requires
        from >= 0,
        first_match_from(s, pat, from) is None,
    ensures
        forall|i: int| i >= from ==> !match_at(s, pat, i),
    decreases s.len() - from,
{
    if from + pat.len() > s.len() {
        assert forall|i: int| i >= from implies !match_at(s, pat, i) by {
            assert(i + pat.len() > s.len());
        }
    } else if match_at(s, pat, from) {
    } else {
        assert(pat.len() > 0) by {
            if pat.len() == 0 {
                assert(s.subrange(from, from) =~= pat);
            }
        }
        lemma_first_match_none(s, pat, from + 1);
    }
}

proof fn lemma_first_match_some(s: Seq<char>, pat: Seq<char>, from: int, k: int)
    requires
        from >= 0,
        first_match_from(s, pat, from) == Some(k),
    ensures
        from <= k,
        match_at(s, pat, k),
        forall|i: int| from <= i < k ==> !match_at(s, pat, i),
    decreases s.len() - from,
{
    if from + pat.len() > s.len() {
    } else if match_at(s, pat, from) {
    } else {
        assert(pat.len() > 0) by {
            if pat.len() == 0 {
                assert(s.subrange(from, from) =~= pat);
            }
        }
        lemma_first_match_some(s, pat, from + 1, k);
    }
}

/// Checks whether `pat` occurs in `hay` at position `i`.
fn match_at_exec(hay: &Vec<char>, pat: &Vec<char>, i: usize) -> (r: bool)
    requires
        i + pat@.len() <= hay@.len(),
    ensures
        r == match_at(hay@, pat@, i as int),
{
    let n = hay.len();
    let m = pat.len();
    let mut j: usize = 0;
    while j < m
        invariant
            n == hay@.len(),
            m == pat@.len(),
            i + m <= n,
            j <= m,
            forall|q: int| 0 <= q < j ==> hay@[i + q] == pat@[q],
        decreases m - j,
    {
        if hay[i + j] != pat[j] {
            proof {
                assert(!match_at(hay@, pat@, i as int)) by {
                    assert(hay@.subrange(i as int, i + pat@.len())[j as int] != pat@[j as int]);
                }
            }
            return false;
        }
        j += 1;
    }
    proof {
        assert(hay@.subrange(i as int, i + pat@.len()) =~= pat@);
    }
    true
}

/// Finds the leftmost occurrence of `pat` in `hay` at or after `from`.
pub fn find_from(hay: &Vec<char>, pat: &Vec<char>, from: usize) -> (r: Option<usize>)
    ensures
        match r {
            Some(i) => from <= i && first_match_from(hay@, pat@, from as int) == Some(i as int),
            None => first_match_from(hay@, pat@, from as int) is None,
        },
{
    let n = hay.len();
    let m = pat.len();
    if m == 0 {
        if from <= n {
            proof {
                assert(hay@.subrange(from as int, from as int) =~= pat@);
            }
            return Some(from);
        } else {
            return None;
        }
    }
    let mut i: usize = from;
    loop
        invariant
            n == hay@.len(),
            m == pat@.len(),
            1 <= m,
            from <= i,
            first_match_from(hay@, pat@, from as int) == first_match_from(hay@, pat@, i as int),
        decreases n + 1 - i,
    {
        if m > n || i > n - m {
            return None;
        }
        if match_at_exec(hay, pat, i) {
            return Some(i);
        }
        i += 1;
    }
}

/// Checks whether `pat` occurs anywhere in `hay`.
pub fn contains_pat(hay: &Vec<char>, pat: &Vec<char>) -> (r: bool)
    ensures
        r == spec_contains(hay@, pat@),
{
    match find_from(hay, pat, 0) {
        Some(i) => {
            proof {
                lemma_first_match_some(hay@, pat@, 0, i as int);
            }
            true
        },
        None => {
            proof {
                lemma_first_match_none(hay@, pat@, 0);
                assert forall|i: int| !match_at(hay@, pat@, i) by {
                    if i >= 0 {
                    } else {
                    }
                }
            }
            false
        },
    }
}

/// Returns true if `s` is entirely comprised of tabs and/or spaces.
pub fn is_blank(s: &str) -> (r: bool)
    ensures
        r == spec_is_blank(s@),
{
    let n = s.unicode_len();
    let mut i: usize = 0;
    while i < n
        invariant
            n == s@.len(),
            i <= n,
            forall|j: int| 0 <= j < i ==> spec_is_blank_char(#[trigger] s@[j]),
        decreases n - i,
    {
        let c = s.get_char(i);
        if !(c == ' ' || c == '\t') {
            return false;
        }
        i += 1;
    }
    true
}

/// The head and trailing-punctuation split of a URL: at most one trailing
/// `.` and then at most one trailing `)` are moved, in that order, from the
/// head to the trailing part.
pub open spec fn spec_fix_url(u: Seq<char>) -> (Seq<char>, Seq<char>) {
    let n = u.len() as int;
    let d = if n > 0 && u[n - 1] == '.' {
        1int
    } else {
        0int
    };
    let d2 = if n - d > 0 && u[n - d - 1] == ')' {
        d + 1
    } else {
        d
    };
    (u.take(n - d2), u.skip(n - d2))
}

/// Splits off at most one trailing `.` and then at most one trailing `)`
/// from the end of `url`, returning the head and the split-off trailer.
pub fn fix_url(url: &str) -> (r: (&str, &str))
    ensures
        r.0@ == spec_fix_url(url@).0,
        r.1@ == spec_fix_url(url@).1,
        url@ == r.0@ + r.1@,
{
    let n = url.unicode_len();
    let mut cut = n;
    if n > 0 && url.get_char(n - 1) == '.' {
        cut = n - 1;
    }
    if cut > 0 && url.get_char(cut - 1) == ')' {
        cut = cut - 1;
    }
    let head = url.substring_char(0, cut);
    let tail = url.substring_char(cut, n);
    proof {
        assert(head@ =~= spec_fix_url(url@).0);
        assert(tail@ =~= spec_fix_url(url@).1);
        assert(url@ =~= head@ + tail@);
    }
    (head, tail)
}

/// The first `cnt` characters of `t`, or all of it when it is shorter.
pub open spec fn spec_truncate(t: Seq<char>, cnt: int) -> Seq<char> {
    if cnt >= t.len() {
        t
    } else {
        t.take(cnt)
    }
}

/// Returns the prefix of `s` holding at most `cnt` characters.
pub fn truncate_str(s: &str, cnt: usize) -> (r: &str)
    ensures
        r@ == spec_truncate(s@, cnt as int),
{
    let n = s.unicode_len();
    if cnt >= n {
        s
    } else {
        s.substring_char(0, cnt)
    }
}

/// True if the text opens with a character after which a parse error is
/// treated as plain text: a backtick, single quote, pipe or asterisk.
pub open spec fn spec_ignore_parse_error(t: Seq<char>) -> bool {
    t.len() > 0 && (t[0] == '`' || t[0] == '\'' || t[0] == '|' || t[0] == '*')
}

/// Ignore parse errors for unclosed tags, which are common in help files
/// and shown as plain text.
pub fn ignore_parse_error(s: &str) -> (r: bool)
    ensures
        r == spec_ignore_parse_error(s@),
{
    if s.unicode_len() == 0 {
        return false;
    }
    let c = s.get_char(0);
    c == '`' || c == '\'' || c == '|' || c == '*'
}

/// The HTML escape of a single character.
pub open spec fn spec_escape_char(c: char) -> Seq<char> {
    if c == '&' {
        seq!['&', 'a', 'm', 'p', ';']
    } else if c == '<' {
        seq!['&', 'l', 't', ';']
    } else if c == '>' {
        seq!['&', 'g', 't', ';']
    } else {
        seq![c]
    }
}

/// The HTML escape of a text: `&`, `<` and `>` become entities.
pub open spec fn spec_escape(t: Seq<char>) -> Seq<char>
    decreases t,
{
    if t.len() == 0 {
        Seq::empty()
    } else {
        spec_escape(t.drop_last()) + spec_escape_char(t.last())
    }
}

proof fn lemma_escape_take(t: Seq<char>, i: int)
    requires
        0 <= i < t.len(),
    ensures
        spec_escape(t.take(i + 1)) == spec_escape(t.take(i)) + spec_escape_char(t[i]),
{
    assert(t.take(i + 1).drop_last() =~= t.take(i));
    assert(t.take(i + 1).last() == t[i]);
}

/// Escapes `&`, `<` and `>` in `v` for inclusion in HTML.
pub fn escape_chars(v: &Vec<char>) -> (out: Vec<char>)
    ensures
        out@ == spec_escape(v@),
{
    let n = v.len();
    let mut out: Vec<char> = Vec::new();
    let mut i: usize = 0;
    proof {
        assert(v@.take(0) =~= Seq::<char>::empty());
    }
    while i < n
        invariant
            n == v@.len(),
            i <= n,
            out@ == spec_escape(v@.take(i as int)),
        decreases n - i,
    {
        let c = v[i];
        if c == '&' {
            out.push('&');
            out.push('a');
            out.push('m');
            out.push('p');
            out.push(';');
        } else if c == '<' {
            out.push('&');
            out.push('l');
            out.push('t');
            out.push(';');
        } else if c == '>' {
            out.push('&');
            out.push('g');
            out.push('t');
            out.push(';');
        } else {
            out.push(c);
        }
        proof {
            lemma_escape_take(v@, i as int);
            assert(out@ =~= spec_escape(v@.take(i as int)) + spec_escape_char(v@[i as int]));
        }
        i += 1;
    }
    proof {
        assert(v@.take(n as int) =~= v@);
    }
    out
}

/// The whitespace characters recognised by the text rules.
pub open spec fn spec_is_space(c: char) -> bool {
    c == ' ' || c == '\t' || c == '\n' || c == '\r' || c == '\u{b}' || c == '\u{c}'
}

/// Checks whether `c` is one of the recognised whitespace characters.
pub fn is_space_char(c: char) -> (r: bool)
    ensures
        r == spec_is_space(c),
{
    c == ' ' || c == '\t' || c == '\n' || c == '\r' || c == '\u{b}' || c == '\u{c}'
}

/// `t` with leading whitespace removed.
pub open spec fn spec_trim_start(t: Seq<char>) -> Seq<char>
    decreases t,
{
    if t.len() == 0 {
        t
    } else if spec_is_space(t[0]) {
        spec_trim_start(t.drop_first())
    } else {
        t
    }
}

/// `t` with trailing whitespace removed.
pub open spec fn spec_trim_end(t: Seq<char>) -> Seq<char>
    decreases t,
{
    if t.len() == 0 {
        t
    } else if spec_is_space(t.last()) {
        spec_trim_end(t.drop_last())
    } else {
        t
    }
}

/// Removes leading whitespace characters from `v`.
pub fn trim_start_chars(v: &Vec<char>) -> (out: Vec<char>)
    ensures
        out@ == spec_trim_start(v@),
{
    let n = v.len();
    let mut i: usize = 0;
    proof {
        assert(v@.skip(0) =~= v@);
    }
    while i < n && is_space_char(v[i])
        invariant
            n == v@.len(),
            i <= n,
            spec_trim_start(v@) == spec_trim_start(v@.skip(i as int)),
        decreases n - i,
    {
        proof {
            assert(v@.skip(i as int)[0] == v@[i as int]);
            assert(v@.skip(i as int).drop_first() =~= v@.skip(i as int + 1));
        }
        i += 1;
    }
    let mut out: Vec<char> = Vec::new();
    let mut j: usize = i;
    while j < n
        invariant
            n == v@.len(),
            i <= j <= n,
            out@ == v@.subrange(i as int, j as int),
        decreases n - j,
    {
        out.push(v[j]);
        proof {
            assert(out@ =~= v@.subrange(i as int, j as int + 1));
        }
        j += 1;
    }
    proof {
        if i < n {
            assert(spec_trim_start(v@.skip(i as int)) == v@.skip(i as int));
        } else {
            assert(v@.skip(i as int) =~= Seq::<char>::empty());
        }
        assert(out@ =~= v@.skip(i as int));
    }
    out
}

/// Removes trailing whitespace characters from `v`.
pub fn trim_end_chars(v: &Vec<char>) -> (out: Vec<char>)
    ensures
        out@ == spec_trim_end(v@),
{
    let n = v.len();
    let mut e: usize = n;
    proof {
        assert(v@.take(n as int) =~= v@);
    }
    while e > 0 && is_space_char(v[e - 1])
        invariant
            n == v@.len(),
            e <= n,
            spec_trim_end(v@) == spec_trim_end(v@.take(e as int)),
        decreases e,
    {
        proof {
            assert(v@.take(e as int).last() == v@[e as int - 1]);
            assert(v@.take(e as int).drop_last() =~= v@.take(e as int - 1));
        }
        e -= 1;
    }
    let mut out: Vec<char> = Vec::new();
    let mut j: usize = 0;
    while j < e
        invariant
            e <= n,
            n == v@.len(),
            j <= e,
            out@ == v@.subrange(0, j as int),
        decreases e - j,
    {
        out.push(v[j]);
        proof {
            assert(out@ =~= v@.subrange(0, j as int + 1));
        }
        j += 1;
    }
    proof {
        if e > 0 {
            assert(spec_trim_end(v@.take(e as int)) == v@.take(e as int));
        } else {
            assert(v@.take(0) =~= Seq::<char>::empty());
        }
        assert(out@ =~= v@.take(e as int));
    }
    out
}

/// The index of the first newline at or after `p`, or the length of `t`
/// when no newline follows.
pub open spec fn spec_line_end(t: Seq<char>, p: int) -> int
    decreases t.len() - p,
{
    if p < 0 {
        spec_line_end(t, 0)
    } else if p >= t.len() {
        t.len() as int
    } else if t[p] == '\n' {
        p
    } else {
        spec_line_end(t, p + 1)
    }
}

proof fn lemma_line_end(t: Seq<char>, p: int)
    requires
        0 <= p <= t.len(),
    ensures
        p <= spec_line_end(t, p) <= t.len(),
        spec_line_end(t, p) < t.len() ==> t[spec_line_end(t, p)] == '\n',
        forall|i: int| p <= i < spec_line_end(t, p) ==> t[i] != '\n',
    decreases t.len() - p,
{
    if p < t.len() && t[p] != '\n' {
        lemma_line_end(t, p + 1);
    }
}

/// Finds the first newline in `v` at or after `p`.
pub fn line_end_exec(v: &Vec<char>, p: usize) -> (e: usize)
    requires
        p <= v@.len(),
    ensures
        e == spec_line_end(v@, p as int),
{
    let n = v.len();
    let mut i: usize = p;
    while i < n
        invariant
            n == v@.len(),
            p <= i <= n,
            spec_line_end(v@, p as int) == spec_line_end(v@, i as int),
        decreases n - i,
    {
        if v[i] == '\n' {
            return i;
        }
        i += 1;
    }
    n
}

/// The lines of `t`: the pieces between newlines, with a carriage return
/// directly before a newline dropped, and a final piece after the last
/// newline kept only when it is not empty.
pub open spec fn spec_split_from(t: Seq<char>, p: int) -> Seq<Seq<char>>
    decreases t.len() - p,
{
    if p < 0 {
        spec_split_from(t, 0)
    } else if p >= t.len() {
        seq![]
    } else {
        let e = spec_line_end(t, p);
        if p <= e < t.len() {
            let pe = if e > p && t[e - 1] == '\r' {
                e - 1
            } else {
                e
            };
            seq![t.subrange(p, pe)] + spec_split_from(t, e + 1)
        } else {
            seq![t.subrange(p, t.len() as int)]
        }
    }
}

/// The lines of `t`, as split on newline (or carriage return and
/// newline) endings.
pub open spec fn spec_lines(t: Seq<char>) -> Seq<Seq<char>> {
    spec_split_from(t, 0)
}

/// Splits `v` into its lines.
pub fn split_lines(v: &Vec<char>) -> (ls: Vec<Vec<char>>)
    ensures
        ls.deep_view() == spec_lines(v@),
{
    let n = v.len();
    let mut ls: Vec<Vec<char>> = Vec::new();
    let mut p: usize = 0;
    proof {
        assert(ls.deep_view() =~~= Seq::<Seq<char>>::empty());
    }
    while p < n
        invariant
            n == v@.len(),
            p <= n,
            spec_lines(v@) == ls.deep_view() + spec_split_from(v@, p as int),
        decreases n - p,
    {
        proof {
            lemma_line_end(v@, p as int);
        }
        let e = line_end_exec(v, p);
        let pe = if e < n && e > p && v[e - 1] == '\r' {
            e - 1
        } else {
            e
        };
        let mut piece: Vec<char> = Vec::new();
        let mut j: usize = p;
        while j < pe
            invariant
                p <= j <= pe <= n,
                n == v@.len(),
                piece@ == v@.subrange(p as int, j as int),
            decreases pe - j,
        {
            piece.push(v[j]);
            proof {
                assert(piece@ =~= v@.subrange(p as int, j as int + 1));
            }
            j += 1;
        }
        let ghost old_ls = ls.deep_view();
        ls.push(piece);
        proof {
            assert(ls.deep_view() =~~= old_ls.push(piece@));
        }
        if e < n {
            proof {
                assert(ls.deep_view() + spec_split_from(v@, e as int + 1) =~~= old_ls + (seq![
                    v@.subrange(p as int, pe as int),
                ] + spec_split_from(v@, e as int + 1)));
            }
            p = e + 1;
        } else {
            proof {
                assert(piece@ =~= v@.subrange(p as int, v@.len() as int));
                assert(ls.deep_view() + spec_split_from(v@, n as int) =~~= old_ls + seq![
                    v@.subrange(p as int, v@.len() as int),
                ]);
            }
            p = n;
        }
    }
    proof {
        assert(spec_lines(v@) =~~= ls.deep_view() + spec_split_from(v@, n as int));
        assert(ls.deep_view() + spec_split_from(v@, n as int) =~~= ls.deep_view());
    }
    ls
}

/// A run of `k` spaces.
pub open spec fn spec_spaces(k: int) -> Seq<char>
    decreases k,
{
    if k <= 0 {
        Seq::empty()
    } else {
        spec_spaces(k - 1).push(' ')
    }
}

/// `t` with every tab replaced by `k` spaces.
pub open spec fn spec_expand_tabs(t: Seq<char>, k: int) -> Seq<char>
    decreases t,
{
    if t.len() == 0 {
        Seq::empty()
    } else {
        spec_expand_tabs(t.drop_last(), k) + (if t.last() == '\t' {
            spec_spaces(k)
        } else {
            seq![t.last()]
        })
    }
}

/// The number of leading space characters of `l`, counted from `p`.
pub open spec fn spec_lead_spaces(l: Seq<char>, p: int) -> int
    decreases l.len() - p,
{
    if p < 0 {
        spec_lead_spaces(l, 0)
    } else if p >= l.len() || l[p] != ' ' {
        p
    } else {
        spec_lead_spaces(l, p + 1)
    }
}

/// The smallest count of leading spaces over the lines, or 0 when there
/// are no lines.
pub open spec fn spec_min_indent(ls: Seq<Seq<char>>) -> int
    decreases ls,
{
    if ls.len() == 0 {
        0
    } else if ls.len() == 1 {
        spec_lead_spaces(ls[0], 0)
    } else {
        let rest = spec_min_indent(ls.drop_first());
        let head = spec_lead_spaces(ls[0], 0);
        if head <= rest {
            head
        } else {
            rest
        }
    }
}

/// The lines joined with single newlines between them.
pub open spec fn spec_join_lines(ls: Seq<Seq<char>>) -> Seq<char>
    decreases ls,
{
    if ls.len() == 0 {
        Seq::empty()
    } else if ls.len() == 1 {
        ls[0]
    } else {
        ls[0].push('\n') + spec_join_lines(ls.drop_first())
    }
}

/// Every line with its first `m` characters removed.
pub open spec fn spec_strip_lines(ls: Seq<Seq<char>>, m: int) -> Seq<Seq<char>> {
    ls.map_values(|l: Seq<char>| l.skip(m))
}

/// The result of indentation trimming: tabs expanded to `k` spaces, the
/// common count of leading spaces removed from every line, and the lines
/// joined again with newlines.
pub open spec fn spec_trim_indent(t: Seq<char>, k: int) -> Seq<char> {
    let ex = spec_expand_tabs(t, k);
    let ls = spec_lines(ex);
    spec_join_lines(spec_strip_lines(ls, spec_min_indent(ls)))
}

proof fn lemma_join_push(ls: Seq<Seq<char>>, l: Seq<char>)
    ensures
        spec_join_lines(ls.push(l)) == if ls.len() == 0 {
            l
        } else {
            spec_join_lines(ls).push('\n') + l
        },
    decreases ls,
{
    if ls.len() == 0 {
        assert(ls.push(l)[0] == l);
        assert(ls.push(l).len() == 1);
    } else if ls.len() == 1 {
        assert(ls.push(l).drop_first() =~= seq![l]);
        assert(spec_join_lines(seq![l]) == l);
    } else {
        assert(ls.push(l).drop_first() =~= ls.drop_first().push(l));
        lemma_join_push(ls.drop_first(), l);
    }
}

proof fn lemma_expand_take(t: Seq<char>, k: int, i: int)
    requires
        0 <= i < t.len(),
    ensures
        spec_expand_tabs(t.take(i + 1), k) == spec_expand_tabs(t.take(i), k) + (if t[i] == '\t' {
            spec_spaces(k)
        } else {
            seq![t[i]]
        }),
{
    assert(t.take(i + 1).drop_last() =~= t.take(i));
    assert(t.take(i + 1).last() == t[i]);
}

/// Appends `k` spaces to `out`.
pub fn push_spaces(out: &mut Vec<char>, k: usize)
    ensures
        final(out)@ == old(out)@ + spec_spaces(k as int),
{
    let mut i: usize = 0;
    proof {
        assert(old(out)@ + spec_spaces(0) =~= old(out)@);
    }
    while i < k
        invariant
            i <= k,
            out@ == old(out)@ + spec_spaces(i as int),
        decreases k - i,
    {
        out.push(' ');
        proof {
            assert(out@ =~= old(out)@ + spec_spaces(i as int + 1));
        }
        i += 1;
    }
}

/// Replaces every tab in `v` by `k` spaces.
fn expand_tabs(v: &Vec<char>, k: usize) -> (out: Vec<char>)
    ensures
        out@ == spec_expand_tabs(v@, k as int),
{
    let n = v.len();
    let mut out: Vec<char> = Vec::new();
    let mut i: usize = 0;
    proof {
        assert(spec_expand_tabs(v@.take(0), k as int) =~= Seq::<char>::empty());
        assert(v@.take(0) =~= Seq::<char>::empty());
    }
    while i < n
        invariant
            n == v@.len(),
            i <= n,
            out@ == spec_expand_tabs(v@.take(i as int), k as int),
        decreases n - i,
    {
        if v[i] == '\t' {
            push_spaces(&mut out, k);
        } else {
            out.push(v[i]);
        }
        proof {
            lemma_expand_take(v@, k as int, i as int);
        }
        i += 1;
    }
    proof {
        assert(v@.take(n as int) =~= v@);
    }
    out
}

/// Counts the leading spaces of `l`.
fn lead_spaces_exec(l: &Vec<char>) -> (r: usize)
    ensures
        r == spec_lead_spaces(l@, 0),
{
    let n = l.len();
    let mut i: usize = 0;
    while i < n
        invariant
            n == l@.len(),
            i <= n,
            spec_lead_spaces(l@, 0) == spec_lead_spaces(l@, i as int),
        decreases n - i,
    {
        if l[i] != ' ' {
            return i;
        }
        i += 1;
    }
    n
}

/// Removes leading whitespace from each line to match the furthest-left
/// line, converting tabs to `tab_to_space_cnt` spaces first.
pub fn trim_indent(s: &str, tab_to_space_cnt: usize) -> (r: String)
    ensures
        r@ == spec_trim_indent(s@, tab_to_space_cnt as int),
{
    let chars = str_to_chars(s);
    let expanded = expand_tabs(&chars, tab_to_space_cnt);
    let ls = split_lines(&expanded);
    let ghost lsv = ls.deep_view();
    let cnt = ls.len();

    // Find the smallest leading-space count over all lines.
    let mut min: usize = 0;
    let mut have: bool = false;
    let mut i: usize = 0;
    while i < cnt
        invariant
            cnt == lsv.len(),
            lsv == ls.deep_view(),
            i <= cnt,
            have == (i > 0),
            have ==> min == spec_min_indent(lsv.take(i as int)),
            !have ==> min == 0,
        decreases cnt - i,
    {
        proof {
            assert(lsv[i as int] == ls@[i as int].deep_view());
            assert(ls@[i as int].deep_view() =~= ls@[i as int]@);
        }
        let c = lead_spaces_exec(&ls[i]);
        proof {
            lemma_lead_spaces_bounds(lsv[i as int], 0);
        }
        if !have || c < min {
            min = c;
        }
        have = true;
        proof {
            lemma_min_indent_push(lsv.take(i as int), lsv[i as int]);
            assert(lsv.take(i as int).push(lsv[i as int]) =~= lsv.take(i as int + 1));
        }
        i += 1;
    }
    proof {
        assert(lsv.take(cnt as int) =~= lsv);
        if cnt == 0 {
            assert(spec_min_indent(lsv) == 0);
        }
        assert(min as int == spec_min_indent(lsv));
    }

    // Strip the common indent and join the lines again.
    let mut out: Vec<char> = Vec::new();
    let mut i: usize = 0;
    let ghost stripped = spec_strip_lines(lsv, min as int);
    proof {
        assert(spec_join_lines(stripped.take(0)) =~= Seq::<char>::empty());
        assert(stripped.take(0) =~= Seq::<Seq<char>>::empty());
    }
    while i < cnt
        invariant
            cnt == lsv.len(),
            lsv == ls.deep_view(),
            min as int == spec_min_indent(lsv),
            stripped == spec_strip_lines(lsv, min as int),
            i <= cnt,
            out@ == spec_join_lines(stripped.take(i as int)),
        decreases cnt - i,
    {
        if i > 0 {
            out.push('\n');
        }
        let line = &ls[i];
        let j: usize = min;
        proof {
            assert(lsv[i as int] == ls@[i as int].deep_view());
            assert(ls@[i as int].deep_view() =~= ls@[i as int]@);
            assert(stripped[i as int] == lsv[i as int].skip(min as int));
            lemma_min_indent_le(lsv, i as int);
            lemma_lead_spaces_bounds(lsv[i as int], 0);
        }
        let ghost mid = out@;
        proof {
            assert(out@ =~= mid + lsv[i as int].subrange(j as int, j as int));
        }
        let e = line.len();
        let mut kk: usize = j;
        while kk < e
            invariant
                e == line@.len(),
                j <= kk <= e,
                out@ == mid + line@.subrange(j as int, kk as int),
            decreases e - kk,
        {
            out.push(line[kk]);
            proof {
                assert(out@ =~= mid + line@.subrange(j as int, kk as int + 1));
            }
            kk += 1;
        }
        proof {
            assert(out@ =~= mid + stripped[i as int]);
            lemma_join_push(stripped.take(i as int), stripped[i as int]);
            assert(stripped.take(i as int).push(stripped[i as int]) =~= stripped.take(
                i as int + 1,
            ));
            assert(out@ =~= spec_join_lines(stripped.take(i as int + 1)));
        }
        i += 1;
    }
    proof {
        assert(stripped.take(cnt as int) =~= stripped);
    }
    chars_to_string(&out)
}

proof fn lemma_lead_spaces_bounds(l: Seq<char>, p: int)
    requires
        0 <= p <= l.len(),
    ensures
        p <= spec_lead_spaces(l, p) <= l.len(),
    decreases l.len() - p,
{
    if p < l.len() && l[p] == ' ' {
        lemma_lead_spaces_bounds(l, p + 1);
    }
}

/// The first index at or after `p` whose character is not whitespace.
pub open spec fn spec_skip_spaces(t: Seq<char>, p: int) -> int
    decreases t.len() - p,
{
    if p < 0 {
        spec_skip_spaces(t, 0)
    } else if p >= t.len() || !spec_is_space(t[p]) {
        p
    } else {
        spec_skip_spaces(t, p + 1)
    }
}

/// The first index at or after `p` whose character is neither a space nor
/// a tab.
pub open spec fn spec_skip_blanks(t: Seq<char>, p: int) -> int
    decreases t.len() - p,
{
    if p < 0 {
        spec_skip_blanks(t, 0)
    } else if p >= t.len() || !spec_is_blank_char(t[p]) {
        p
    } else {
        spec_skip_blanks(t, p + 1)
    }
}

/// The position left of `e` after stepping over trailing whitespace.
pub open spec fn spec_rskip_spaces(t: Seq<char>, e: int) -> int
    decreases e,
{
    if e <= 0 {
        0
    } else if e > t.len() {
        spec_rskip_spaces(t, t.len() as int)
    } else if spec_is_space(t[e - 1]) {
        spec_rskip_spaces(t, e - 1)
    } else {
        e
    }
}

/// True for an ASCII letter.
pub open spec fn spec_is_alpha(c: char) -> bool {
    ('a' as u32) <= (c as u32) <= ('z' as u32) || ('A' as u32) <= (c as u32) <= ('Z' as u32)
}

proof fn lemma_skip_spaces_bounds(t: Seq<char>, p: int)
    requires
        0 <= p <= t.len(),
    ensures
        p <= spec_skip_spaces(t, p) <= t.len(),
    decreases t.len() - p,
{
    if p < t.len() && spec_is_space(t[p]) {
        lemma_skip_spaces_bounds(t, p + 1);
    }
}

proof fn lemma_skip_blanks_bounds(t: Seq<char>, p: int)
    requires
        0 <= p <= t.len(),
    ensures
        p <= spec_skip_blanks(t, p) <= t.len(),
    decreases t.len() - p,
{
    if p < t.len() && spec_is_blank_char(t[p]) {
        lemma_skip_blanks_bounds(t, p + 1);
    }
}

proof fn lemma_rskip_spaces_bounds(t: Seq<char>, e: int)
    requires
        0 <= e <= t.len(),
    ensures
        0 <= spec_rskip_spaces(t, e) <= e,
    decreases e,
{
    if e > 0 && spec_is_space(t[e - 1]) {
        lemma_rskip_spaces_bounds(t, e - 1);
    }
}

/// Steps over whitespace in `v` starting at `p`.
fn skip_spaces_exec(v: &Vec<char>, p: usize) -> (r: usize)
    requires
        p <= v@.len(),
    ensures
        r == spec_skip_spaces(v@, p as int),
        p <= r <= v@.len(),
{
    let n = v.len();
    let mut i: usize = p;
    while i < n
        invariant
            n == v@.len(),
            p <= i <= n,
            spec_skip_spaces(v@, p as int) == spec_skip_spaces(v@, i as int),
        decreases n - i,
    {
        if !is_space_char(v[i]) {
            return i;
        }
        i += 1;
    }
    n
}

/// Steps over spaces and tabs in `v` starting at `p`.
fn skip_blanks_exec(v: &Vec<char>, p: usize) -> (r: usize)
    requires
        p <= v@.len(),
    ensures
        r == spec_skip_blanks(v@, p as int),
        p <= r <= v@.len(),
{
    let n = v.len();
    let mut i: usize = p;
    while i < n
        invariant
            n == v@.len(),
            p <= i <= n,
            spec_skip_blanks(v@, p as int) == spec_skip_blanks(v@, i as int),
        decreases n - i,
    {
        if !(v[i] == ' ' || v[i] == '\t') {
            return i;
        }
        i += 1;
    }
    n
}

/// Steps backwards over whitespace in `v` ending at `e`.
fn rskip_spaces_exec(v: &Vec<char>, e: usize) -> (r: usize)
    requires
        e <= v@.len(),
    ensures
        r == spec_rskip_spaces(v@, e as int),
        r <= e,
{
    let mut i: usize = e;
    while i > 0 && is_space_char(v[i - 1])
        invariant
            e <= v@.len(),
            i <= e,
            spec_rskip_spaces(v@, e as int) == spec_rskip_spaces(v@, i as int),
        decreases i,
    {
        i -= 1;
    }
    i
}

/// The table-of-contents hint: at or after `i + 5`, on the same line, the
/// text `gO` and later ` to see the table of contents` both occur; `i` is
/// where `Type ` starts.
pub open spec fn spec_toc_at(t: Seq<char>, i: int) -> bool {
    let limit = spec_line_end(t, i + 5);
    exists|j: int, k: int|
        i + 5 <= j < limit && match_at(t, "gO"@, j) && j + 2 <= k < limit && match_at(
            t,
            " to see the table of contents"@,
            k,
        )
}

/// True if some occurrence of `Type ` in `t` opens a table-of-contents
/// hint on its line.
pub open spec fn spec_toc_from(t: Seq<char>, from: int) -> bool
    decreases t.len() - from,
{
    if from < 0 {
        spec_toc_from(t, 0)
    } else if from + 5 > t.len() {
        false
    } else if match_at(t, "Type "@, from) && spec_toc_at(t, from) {
        true
    } else {
        spec_toc_from(t, from + 1)
    }
}

/// The title line of traditional help pages: optional whitespace, then
/// `NVIM` or `VIM`, then `REFERENCE`, then `MANUAL`, separated by spaces
/// or tabs.
pub open spec fn spec_title_line(t: Seq<char>) -> bool {
    let a = spec_skip_spaces(t, 0);
    let b = if a < t.len() && t[a] == 'N' {
        a + 1
    } else {
        a
    };
    match_at(t, "VIM"@, b) && {
        let c = spec_skip_blanks(t, b + 3);
        match_at(t, "REFERENCE"@, c) && {
            let d = spec_skip_blanks(t, c + 9);
            match_at(t, "MANUAL"@, d)
        }
    }
}

/// The first line of traditional help pages, read from the end: optional
/// trailing whitespace, then `vim`, `Vim` or `Nvim`/`NVim`, preceded by
/// whitespace, an optional `*`, `.txt` and at least one letter of the
/// file name.
pub open spec fn spec_help_first_line(t: Seq<char>) -> bool {
    let e = spec_rskip_spaces(t, t.len() as int);
    e >= 3 && match_at(t, "im"@, e - 2) && (t[e - 3] == 'v' || t[e - 3] == 'V') && {
        let p = if e >= 4 && t[e - 4] == 'N' {
            e - 4
        } else {
            e - 3
        };
        p >= 1 && spec_is_space(t[p - 1]) && {
            let q = spec_rskip_spaces(t, p);
            let w = if q >= 1 && t[q - 1] == '*' {
                q - 1
            } else {
                q
            };
            w >= 5 && match_at(t, ".txt"@, w - 4) && spec_is_alpha(t[w - 5])
        }
    }
}

/// A vim modeline: after optional leading whitespace, `vi:` or `vim:`
/// whose line mentions `ft=help` or `filetype=help`; or a
/// `local-additions` marker in `*`/`>`/`<` delimiters.
pub open spec fn spec_modeline(t: Seq<char>) -> bool {
    spec_modeline_head(t) || spec_contains(t, "*local-additions*"@) || spec_contains(
        t,
        "*local-additions<"@,
    ) || spec_contains(t, ">local-additions*"@) || spec_contains(t, ">local-additions<"@)
}

/// The modeline prefix: optional whitespace, `vi:` or `vim:`, and a
/// filetype setting of `help` later on the same line.
pub open spec fn spec_modeline_head(t: Seq<char>) -> bool {
    let a = spec_skip_spaces(t, 0);
    (match_at(t, "vim:"@, a) || match_at(t, "vi:"@, a)) && {
        let c = if match_at(t, "vim:"@, a) {
            a + 4
        } else {
            a + 3
        };
        let limit = spec_line_end(t, c);
        (exists|k: int| c <= k < limit && match_at(t, "ft=help"@, k)) || (exists|k: int|
            c <= k < limit && match_at(t, "filetype=help"@, k))
    }
}

/// A line is noise when it is a table-of-contents hint, a reference-manual
/// title line, the first line of a traditional help page, or a modeline.
pub open spec fn spec_is_noise(t: Seq<char>) -> bool {
    spec_toc_from(t, 0) || spec_title_line(t) || spec_help_first_line(t) || spec_modeline(t)
}

proof fn lemma_min_indent_le(ls: Seq<Seq<char>>, i: int)
    requires
        0 <= i < ls.len(),
    ensures
        spec_min_indent(ls) <= spec_lead_spaces(ls[i], 0),
    decreases ls,
{
    if ls.len() > 1 {
        if i == 0 {
        } else {
            lemma_min_indent_le(ls.drop_first(), i - 1);
        }
    }
}

proof fn lemma_min_indent_push(ls: Seq<Seq<char>>, l: Seq<char>)
    ensures
        spec_min_indent(ls.push(l)) == if ls.len() == 0 {
            spec_lead_spaces(l, 0)
        } else if spec_min_indent(ls) <= spec_lead_spaces(l, 0) {
            spec_min_indent(ls)
        } else {
            spec_lead_spaces(l, 0)
        },
    decreases ls,
{
    if ls.len() == 0 {
        assert(ls.push(l)[0] == l);
    } else {
        assert(ls.push(l).drop_first() =~= ls.drop_first().push(l));
        lemma_min_indent_push(ls.drop_first(), l);
        assert(ls.push(l)[0] == ls[0]);
    }
}

/// The decimal digit character for `d`.
pub open spec fn spec_digit_char(d: int) -> char {
    if d == 0 {
        '0'
    } else if d == 1 {
        '1'
    } else if d == 2 {
        '2'
    } else if d == 3 {
        '3'
    } else if d == 4 {
        '4'
    } else if d == 5 {
        '5'
    } else if d == 6 {
        '6'
    } else if d == 7 {
        '7'
    } else if d == 8 {
        '8'
    } else {
        '9'
    }
}

/// The decimal digits of `n`, most significant first.
pub open spec fn spec_digits(n: int) -> Seq<char>
    decreases n,
{
    if n < 10 {
        seq![spec_digit_char(if n < 0 {
            0
        } else {
            n
        })]
    } else {
        spec_digits(n / 10).push(spec_digit_char(n % 10))
    }
}

/// Writes `n` in decimal.
pub fn usize_to_string(n: usize) -> (r: String)
    ensures
        r@ == spec_digits(n as int),
    decreases n,
{
    let d = n % 10;
    let c: char = if d == 0 {
        '0'
    } else if d == 1 {
        '1'
    } else if d == 2 {
        '2'
    } else if d == 3 {
        '3'
    } else if d == 4 {
        '4'
    } else if d == 5 {
        '5'
    } else if d == 6 {
        '6'
    } else if d == 7 {
        '7'
    } else if d == 8 {
        '8'
    } else {
        '9'
    };
    if n < 10 {
        let mut s = String::new();
        push_char(&mut s, c);
        proof {
            assert(s@ =~= spec_digits(n as int));
        }
        s
    } else {
        let mut s = usize_to_string(n / 10);
        push_char(&mut s, c);
        s
    }
}

/// Removes leading whitespace from `s`.
pub fn trim_start_str(s: &str) -> (r: String)
    ensures
        r@ == spec_trim_start(s@),
{
    let v = str_to_chars(s);
    let t = trim_start_chars(&v);
    chars_to_string(&t)
}

/// Removes trailing whitespace from `s`.
pub fn trim_end_str(s: &str) -> (r: String)
    ensures
        r@ == spec_trim_end(s@),
{
    let v = str_to_chars(s);
    let t = trim_end_chars(&v);
    chars_to_string(&t)
}

/// `t` with leading and trailing `*` characters removed.
pub open spec fn spec_strip_stars(t: Seq<char>) -> Seq<char>
    decreases t,
{
    if t.len() == 0 {
        t
    } else if t[0] == '*' {
        spec_strip_stars(t.drop_first())
    } else if t.last() == '*' {
        spec_strip_stars(t.drop_last())
    } else {
        t
    }
}

/// Removes leading and trailing `*` characters from `s`.
pub fn strip_stars(s: &str) -> (r: String)
    ensures
        r@ == spec_strip_stars(s@),
{
    let v = str_to_chars(s);
    let n = v.len();
    let mut a: usize = 0;
    let mut b: usize = n;
    proof {
        assert(v@.subrange(0, n as int) =~= v@);
    }
    while a < b && (v[a] == '*' || v[b - 1] == '*')
        invariant
            n == v@.len(),
            a <= b <= n,
            spec_strip_stars(v@) == spec_strip_stars(v@.subrange(a as int, b as int)),
        decreases b - a,
    {
        proof {
            let sub = v@.subrange(a as int, b as int);
            assert(sub[0] == v@[a as int]);
            assert(sub.last() == v@[b as int - 1]);
            assert(sub.drop_first() =~= v@.subrange(a as int + 1, b as int));
            assert(sub.drop_last() =~= v@.subrange(a as int, b as int - 1));
        }
        if v[a] == '*' {
            a += 1;
        } else {
            b -= 1;
        }
    }
    let mut out: Vec<char> = Vec::new();
    let mut j: usize = a;
    while j < b
        invariant
            a <= j <= b <= n,
            n == v@.len(),
            out@ == v@.subrange(a as int, j as int),
        decreases b - j,
    {
        out.push(v[j]);
        proof {
            assert(out@ =~= v@.subrange(a as int, j as int + 1));
        }
        j += 1;
    }
    proof {
        let sub = v@.subrange(a as int, b as int);
        if a < b {
            assert(spec_strip_stars(sub) == sub);
        } else {
            assert(sub =~= Seq::<char>::empty());
        }
        assert(out@ =~= sub);
    }
    chars_to_string(&out)
}

/// Checks for the table-of-contents hint after position `i` of `Type `.
fn toc_at_exec(v: &Vec<char>, i: usize) -> (r: bool)
    requires
        i + 5 <= v@.len(),
    ensures
        r == spec_toc_at(v@, i as int),
{
    let mid = str_to_chars("gO");
    let tail = str_to_chars(" to see the table of contents");
    proof {
        reveal_strlit("gO");
        reveal_strlit(" to see the table of contents");
    }
    let n = v.len();
    let limit = line_end_exec(v, i + 5);
    proof {
        lemma_line_end(v@, i as int + 5);
    }
    let j0 = match find_from(v, &mid, i + 5) {
        Some(j) => j,
        None => {
            proof {
                lemma_first_match_none(v@, mid@, i as int + 5);
            }
            return false;
        },
    };
    proof {
        lemma_first_match_some(v@, mid@, i as int + 5, j0 as int);
    }
    if j0 >= limit {
        proof {
            assert(!spec_toc_at(v@, i as int)) by {
                assert forall|j: int, k: int|
                    !(i + 5 <= j < spec_line_end(v@, i as int + 5) && match_at(v@, "gO"@, j) && j
                        + 2 <= k < spec_line_end(v@, i as int + 5) && match_at(
                        v@,
                        " to see the table of contents"@,
                        k,
                    )) by {
                    if i + 5 <= j < j0 as int {
                        assert(!match_at(v@, "gO"@, j));
                    }
                }
            }
        }
        return false;
    }
    let k0 = match find_from(v, &tail, j0 + 2) {
        Some(k) => k,
        None => {
            proof {
                lemma_first_match_none(v@, tail@, j0 as int + 2);
                assert(!spec_toc_at(v@, i as int)) by {
                    assert forall|j: int, k: int|
                        !(i + 5 <= j < spec_line_end(v@, i as int + 5) && match_at(v@, "gO"@, j)
                            && j + 2 <= k < spec_line_end(v@, i as int + 5) && match_at(
                            v@,
                            " to see the table of contents"@,
                            k,
                        )) by {
                        if match_at(v@, "gO"@, j) && i + 5 <= j {
                            assert(j0 as int <= j);
                            if j + 2 <= k && match_at(v@, " to see the table of contents"@, k) {
                                assert(k >= j0 as int + 2);
                                assert(false);
                            }
                        }
                    }
                }
            }
            return false;
        },
    };
    proof {
        lemma_first_match_some(v@, tail@, j0 as int + 2, k0 as int);
    }
    if k0 < limit {
        proof {
            assert(spec_toc_at(v@, i as int)) by {
                assert(i + 5 <= j0 as int && (j0 as int) < spec_line_end(v@, i as int + 5));
                assert(j0 as int + 2 <= k0 as int && (k0 as int) < spec_line_end(v@, i as int + 5));
            }
        }
        true
    } else {
        proof {
            assert(!spec_toc_at(v@, i as int)) by {
                assert forall|j: int, k: int|
                    !(i + 5 <= j < spec_line_end(v@, i as int + 5) && match_at(v@, "gO"@, j) && j
                        + 2 <= k < spec_line_end(v@, i as int + 5) && match_at(
                        v@,
                        " to see the table of contents"@,
                        k,
                    )) by {
                    if match_at(v@, "gO"@, j) && i + 5 <= j && j + 2 <= k && match_at(
                        v@,
                        " to see the table of contents"@,
                        k,
                    ) && k < spec_line_end(v@, i as int + 5) {
                        assert(j0 as int <= j);
                        assert(k >= j0 as int + 2);
                        assert(k0 as int <= k);
                        assert(false);
                    }
                }
            }
        }
        false
    }
}

/// Checks for a table-of-contents hint anywhere in `v`.
fn toc_exec(v: &Vec<char>) -> (r: bool)
    ensures
        r == spec_toc_from(v@, 0),
{
    let head = str_to_chars("Type ");
    proof {
        reveal_strlit("Type ");
    }
    let n = v.len();
    let mut from: usize = 0;
    loop
        invariant
            n == v@.len(),
            head@ == "Type "@,
            head@.len() == 5,
            spec_toc_from(v@, 0) == spec_toc_from(v@, from as int),
        decreases n + 5 - from,
    {
        if n < 5 || from > n - 5 {
            return false;
        }
        if match_at_exec(v, &head, from) {
            if toc_at_exec(v, from) {
                return true;
            }
        }
        from += 1;
    }
}

/// Checks for the reference-manual title line.
fn title_exec(v: &Vec<char>) -> (r: bool)
    ensures
        r == spec_title_line(v@),
{
    let vim = str_to_chars("VIM");
    let refer = str_to_chars("REFERENCE");
    let man = str_to_chars("MANUAL");
    proof {
        reveal_strlit("VIM");
        reveal_strlit("REFERENCE");
        reveal_strlit("MANUAL");
    }
    let n = v.len();
    let a = skip_spaces_exec(v, 0);
    let b = if a < n && v[a] == 'N' {
        a + 1
    } else {
        a
    };
    if n < 3 || b > n - 3 || !match_at_exec(v, &vim, b) {
        return false;
    }
    let c = skip_blanks_exec(v, b + 3);
    if n < 9 || c > n - 9 || !match_at_exec(v, &refer, c) {
        return false;
    }
    let d = skip_blanks_exec(v, c + 9);
    if n < 6 || d > n - 6 || !match_at_exec(v, &man, d) {
        return false;
    }
    true
}

/// Checks for the first line of a traditional help page.
fn help_first_exec(v: &Vec<char>) -> (r: bool)
    ensures
        r == spec_help_first_line(v@),
{
    let txt = str_to_chars(".txt");
    proof {
        reveal_strlit(".txt");
        reveal_strlit("im");
    }
    let im = str_to_chars("im");
    let n = v.len();
    let e = rskip_spaces_exec(v, n);
    proof {
        lemma_rskip_spaces_bounds(v@, n as int);
    }
    if e < 3 {
        return false;
    }
    if !match_at_exec(v, &im, e - 2) {
        return false;
    }
    if !(v[e - 3] == 'v' || v[e - 3] == 'V') {
        return false;
    }
    let p = if e >= 4 && v[e - 4] == 'N' {
        e - 4
    } else {
        e - 3
    };
    if p < 1 || !is_space_char(v[p - 1]) {
        return false;
    }
    let q = rskip_spaces_exec(v, p);
    proof {
        lemma_rskip_spaces_bounds(v@, p as int);
    }
    let w = if q >= 1 && v[q - 1] == '*' {
        q - 1
    } else {
        q
    };
    if w < 5 {
        return false;
    }
    if !match_at_exec(v, &txt, w - 4) {
        return false;
    }
    let cu = v[w - 5] as u32;
    (cu >= 'a' as u32 && cu <= 'z' as u32) || (cu >= 'A' as u32 && cu <= 'Z' as u32)
}

/// Checks for the modeline prefix with a `help` filetype.
fn modeline_head_exec(v: &Vec<char>) -> (r: bool)
    ensures
        r == spec_modeline_head(v@),
{
    let vim = str_to_chars("vim:");
    let vi = str_to_chars("vi:");
    let ft = str_to_chars("ft=help");
    let ftl = str_to_chars("filetype=help");
    proof {
        reveal_strlit("vim:");
        reveal_strlit("vi:");
    }
    let n = v.len();
    let a = skip_spaces_exec(v, 0);
    let m4 = n >= 4 && a <= n - 4 && match_at_exec(v, &vim, a);
    let m3 = n >= 3 && a <= n - 3 && match_at_exec(v, &vi, a);
    if !m4 && !m3 {
        return false;
    }
    let c = if m4 {
        a + 4
    } else {
        a + 3
    };
    let limit = line_end_exec(v, c);
    proof {
        lemma_line_end(v@, c as int);
    }
    let r1 = match find_from(v, &ft, c) {
        Some(k) => {
            proof {
                lemma_first_match_some(v@, ft@, c as int, k as int);
            }
            k < limit
        },
        None => {
            proof {
                lemma_first_match_none(v@, ft@, c as int);
            }
            false
        },
    };
    if r1 {
        proof {
            let k0 = choose|k: int| c as int <= k < limit as int && match_at(v@, ft@, k);
        }
        return true;
    }
    let r2 = match find_from(v, &ftl, c) {
        Some(k) => {
            proof {
                lemma_first_match_some(v@, ftl@, c as int, k as int);
            }
            k < limit
        },
        None => {
            proof {
                lemma_first_match_none(v@, ftl@, c as int);
            }
            false
        },
    };
    proof {
        if !r2 {
            assert forall|k: int| !(c <= k < limit && match_at(v@, ftl@, k)) by {}
            assert forall|k: int| !(c <= k < limit && match_at(v@, ft@, k)) by {}
        }
    }
    r2
}

/// Checks whether the text is a vim modeline or a local-additions marker.
fn modeline_exec(v: &Vec<char>) -> (r: bool)
    ensures
        r == spec_modeline(v@),
{
    if modeline_head_exec(v) {
        return true;
    }
    let p1 = str_to_chars("*local-additions*");
    let p2 = str_to_chars("*local-additions<");
    let p3 = str_to_chars(">local-additions*");
    let p4 = str_to_chars(">local-additions<");
    contains_pat(v, &p1) || contains_pat(v, &p2) || contains_pat(v, &p3) || contains_pat(v, &p4)
}

/// Checks if a given line is a "noise" line that does not belong in
/// rendered output: a table-of-contents hint, a reference-manual title
/// line, a traditional help first line, or a modeline.
pub fn is_noise(s: &str) -> (r: bool)
    ensures
        r == spec_is_noise(s@),
{
    let v = str_to_chars(s);
    toc_exec(&v) || title_exec(&v) || help_first_exec(&v) || modeline_exec(&v)
}

/// The tag names that are known false positives of the invalid-tag check,
/// or that hold a ruler of `===` or `---`.
pub open spec fn spec_ignore_invalid(t: Seq<char>) -> bool {
    ||| t == "'previewpopup'"@
    ||| t == "'pvp'"@
    ||| t == "'string'"@
    ||| t == "Query"@
    ||| t == "eq?"@
    ||| t == "lsp-request"@
    ||| t == "matchit"@
    ||| t == "matchit.txt"@
    ||| t == "set!"@
    ||| t == "v:_null_blob"@
    ||| t == "v:_null_dict"@
    ||| t == "v:_null_list"@
    ||| t == "v:_null_string"@
    ||| t == "vim.lsp.buf_request()"@
    ||| t == "vim.lsp.util.get_progress_messages()"@
    ||| t == "vim.treesitter.start()"@
    ||| spec_contains(t, "==="@)
    ||| spec_contains(t, "---"@)
}

/// Returns true if the given invalid tag name is a false positive.
pub fn ignore_invalid(s: &str) -> (r: bool)
    ensures
        r == spec_ignore_invalid(s@),
{
    if str_eq(s, "'previewpopup'") || str_eq(s, "'pvp'") || str_eq(s, "'string'") || str_eq(
        s,
        "Query",
    ) || str_eq(s, "eq?") || str_eq(s, "lsp-request") || str_eq(s, "matchit") || str_eq(
        s,
        "matchit.txt",
    ) || str_eq(s, "set!") || str_eq(s, "v:_null_blob") || str_eq(s, "v:_null_dict") || str_eq(
        s,
        "v:_null_list",
    ) || str_eq(s, "v:_null_string") || str_eq(s, "vim.lsp.buf_request()") || str_eq(
        s,
        "vim.lsp.util.get_progress_messages()",
    ) || str_eq(s, "vim.treesitter.start()") {
        return true;
    }
    let v = str_to_chars(s);
    let d1 = str_to_chars("===");
    let d2 = str_to_chars("---");
    contains_pat(&v, &d1) || contains_pat(&v, &d2)
}

} // verus!
