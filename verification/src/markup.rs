//! The inline markup converter: turns one document of lightweight
//! markup (emphasis, strong emphasis, links, inline code, escaped
//! backticks) into HTML paragraphs.
//!
//! Every pass is defined first as a spec function over the character
//! sequence and then implemented as a scanner proved equal to it.  The
//! passes run in a fixed order over each line: escape the HTML-unsafe
//! characters, then emphasis, strong emphasis, links, inline code, and
//! finally un-escaping of `\``.  Unmatched markup is left verbatim;
//! conversion never fails.

use vstd::prelude::*;

use crate::text::{
    find2_from, find_char, find_from, find_pair, lemma_find2_from, lemma_find_from, push_char,
    trim_str, trimmed,
};

verus! {

/// HTML escape of one character: `&`, `<` and `>` become entities,
/// every other character stands for itself.
pub open spec fn esc_char(c: char) -> Seq<char> {
    if c == '&' {
        "&amp;"@
    } else if c == '<' {
        "&lt;"@
    } else if c == '>' {
        "&gt;"@
    } else {
        seq![c]
    }
}

/// The escape pass over the characters of `s` from index `i` on.  All
/// three entities are introduced in one simultaneous sweep, so text
/// produced by an earlier replacement is never escaped again.
pub open spec fn escaped_from(s: Seq<char>, i: int) -> Seq<char>
    decreases s.len() - i,
    when 0 <= i <= s.len()
{
    if i == s.len() {
        Seq::empty()
    } else {
        esc_char(s[i]) + escaped_from(s, i + 1)
    }
}

/// The escape pass over a whole line.
pub open spec fn escaped(s: Seq<char>) -> Seq<char> {
    escaped_from(s, 0)
}

/// Runtime escape pass.
pub fn apply_escape(s: &str) -> (r: String)
    ensures
        r@ == escaped(s@),
{
    let n = s.unicode_len();
    let mut out = String::new();
    let mut i: usize = 0;
    while i < n
        invariant
            i <= n,
            n == s@.len(),
            escaped(s@) == out@ + escaped_from(s@, i as int),
        decreases n - i,
    {
        let c = s.get_char(i);
        if c == '&' {
            out.append("&amp;");
        } else if c == '<' {
            out.append("&lt;");
        } else if c == '>' {
            out.append("&gt;");
        } else {
            push_char(&mut out, c);
        }
        proof {
            assert(escaped_from(s@, i as int) == esc_char(s@[i as int]) + escaped_from(
                s@,
                i + 1 as int,
            ));
            assert(out@ + escaped_from(s@, i + 1 as int) =~= escaped(s@));
        }
        i = i + 1;
    }
    proof {
        assert(out@ + escaped_from(s@, n as int) =~= out@);
    }
    out
}

/// One whole-line replacement pass as a sequential implementation
/// performs it: every occurrence of `c` in `s` becomes `rep`.
pub open spec fn replace_all(s: Seq<char>, c: char, rep: Seq<char>) -> Seq<char>
    decreases s.len(),
{
    if s.len() == 0 {
        Seq::empty()
    } else if s[0] == c {
        rep + replace_all(s.skip(1), c, rep)
    } else {
        seq![s[0]] + replace_all(s.skip(1), c, rep)
    }
}

/// A pass for a character that does not occur leaves the line alone.
pub proof fn lemma_replace_absent(s: Seq<char>, c: char, rep: Seq<char>)
    requires
        forall|k: int| 0 <= k < s.len() ==> s[k] != c,
    ensures
        replace_all(s, c, rep) == s,
    decreases s.len(),
{
    if s.len() > 0 {
        lemma_replace_absent(s.skip(1), c, rep);
        assert(seq![s[0]] + s.skip(1) =~= s);
    }
}

/// A replacement pass distributes over concatenation.
pub proof fn lemma_replace_concat(a: Seq<char>, b: Seq<char>, c: char, rep: Seq<char>)
    ensures
        replace_all(a + b, c, rep) == replace_all(a, c, rep) + replace_all(b, c, rep),
    decreases a.len(),
{
    if a.len() == 0 {
        assert(a + b =~= b);
        assert(replace_all(a, c, rep) + replace_all(b, c, rep) =~= replace_all(b, c, rep));
    } else {
        assert((a + b).skip(1) =~= a.skip(1) + b);
        lemma_replace_concat(a.skip(1), b, c, rep);
        assert((a + b).len() > 0 && (a + b)[0] == a[0]);
        if a[0] == c {
            assert(rep + (replace_all(a.skip(1), c, rep) + replace_all(b, c, rep)) =~= (rep
                + replace_all(a.skip(1), c, rep)) + replace_all(b, c, rep));
        } else {
            assert(seq![a[0]] + (replace_all(a.skip(1), c, rep) + replace_all(b, c, rep)) =~= (
            seq![a[0]] + replace_all(a.skip(1), c, rep)) + replace_all(b, c, rep));
        }
    }
}

/// The one-sweep escape agrees with itself when started anywhere:
/// escaping a suffix is escaping from that index on.
pub proof fn lemma_escaped_shift(s: Seq<char>, i: int)
    requires
        0 <= i <= s.len(),
    ensures
        escaped_from(s, i) == escaped(s.skip(i)),
    decreases s.len() - i,
{
    if i < s.len() {
        lemma_escaped_shift(s, i + 1);
        lemma_escaped_shift(s.skip(i), 1);
        assert(s.skip(i).skip(1) =~= s.skip(i + 1));
        assert(s.skip(i)[0] == s[i]);
    } else {
        assert(s.skip(i) =~= Seq::<char>::empty());
    }
}

/// Escaping the ampersands first and the angle brackets afterwards
/// escapes nothing twice: the three sequential passes, in that order,
/// equal the one-sweep escape, so the entities that the passes
/// introduce are never re-escaped.
pub proof fn lemma_escape_passes(s: Seq<char>)
    ensures
        replace_all(replace_all(replace_all(s, '&', "&amp;"@), '>', "&gt;"@), '<', "&lt;"@)
            == escaped(s),
    decreases s.len(),
{
    reveal_strlit("&amp;");
    reveal_strlit("&gt;");
    reveal_strlit("&lt;");
    if s.len() == 0 {
        assert(replace_all(replace_all(replace_all(s, '&', "&amp;"@), '>', "&gt;"@), '<', "&lt;"@)
            =~= escaped(s));
    } else {
        let t = s.skip(1);
        let pa: Seq<char> = if s[0] == '&' {
            "&amp;"@
        } else {
            seq![s[0]]
        };
        let at = replace_all(t, '&', "&amp;"@);
        lemma_escape_passes(t);
        assert(replace_all(s, '&', "&amp;"@) == pa + at);
        lemma_replace_concat(pa, at, '>', "&gt;"@);
        let gpa = replace_all(pa, '>', "&gt;"@);
        let gat = replace_all(at, '>', "&gt;"@);
        lemma_replace_concat(gpa, gat, '<', "&lt;"@);
        let lpa = replace_all(gpa, '<', "&lt;"@);
        let lat = replace_all(gat, '<', "&lt;"@);
        if s[0] == '&' {
            lemma_replace_absent(pa, '>', "&gt;"@);
            lemma_replace_absent(pa, '<', "&lt;"@);
            assert(lpa == esc_char(s[0]));
        } else if s[0] == '>' {
            assert(pa.skip(1) =~= Seq::<char>::empty());
            assert(replace_all(Seq::<char>::empty(), '>', "&gt;"@) =~= Seq::<char>::empty());
            assert(gpa =~= "&gt;"@);
            lemma_replace_absent(gpa, '<', "&lt;"@);
            assert(lpa == esc_char(s[0]));
        } else if s[0] == '<' {
            lemma_replace_absent(pa, '>', "&gt;"@);
            assert(gpa.skip(1) =~= Seq::<char>::empty());
            assert(replace_all(Seq::<char>::empty(), '<', "&lt;"@) =~= Seq::<char>::empty());
            assert(lpa =~= "&lt;"@);
            assert(lpa == esc_char(s[0]));
        } else {
            lemma_replace_absent(pa, '>', "&gt;"@);
            lemma_replace_absent(pa, '<', "&lt;"@);
            assert(lpa == esc_char(s[0]));
        }
        lemma_escaped_shift(s, 1);
        assert(esc_char(s[0]) + escaped(t) =~= escaped(s));
        assert(replace_all(replace_all(replace_all(s, '&', "&amp;"@), '>', "&gt;"@), '<', "&lt;"@)
            == lpa + lat);
    }
}

/// The emphasis pass from index `pos` on: the leftmost pair of single
/// underscores, matched as lazily as possible, delimits text that is
/// wrapped in `<em>` tags; the search then resumes after the closing
/// delimiter.  A lone underscore is left verbatim.
pub open spec fn em_from(s: Seq<char>, pos: int) -> Seq<char>
    decreases s.len() - pos,
    when 0 <= pos <= s.len()
{
    match find_from(s, '_', pos) {
        None => s.subrange(pos, s.len() as int),
        Some(i) => match find_from(s, '_', i + 1) {
            None => s.subrange(pos, s.len() as int),
            Some(j) => {
                proof {
                    lemma_find_from(s, '_', pos);
                    lemma_find_from(s, '_', i + 1);
                }
                s.subrange(pos, i) + "<em>"@ + s.subrange(i + 1, j) + "</em>"@ + em_from(s, j + 1)
            },
        },
    }
}

/// The emphasis pass over a whole line.
pub open spec fn em_pass(s: Seq<char>) -> Seq<char> {
    em_from(s, 0)
}

/// Runtime emphasis pass.
pub fn apply_em(s: &str) -> (r: String)
    ensures
        r@ == em_pass(s@),
{
    let n = s.unicode_len();
    let mut out = String::new();
    let mut pos: usize = 0;
    loop
        invariant
            pos <= n,
            n == s@.len(),
            em_pass(s@) == out@ + em_from(s@, pos as int),
        decreases n - pos,
    {
        let open = find_char(s, '_', pos);
        let close = match open {
            None => None,
            Some(i) => {
                proof {
                    lemma_find_from(s@, '_', pos as int);
                }
                find_char(s, '_', i + 1)
            },
        };
        match (open, close) {
            (Some(i), Some(j)) => {
                proof {
                    lemma_find_from(s@, '_', pos as int);
                    lemma_find_from(s@, '_', i + 1 as int);
                }
                out.append(s.substring_char(pos, i));
                out.append("<em>");
                out.append(s.substring_char(i + 1, j));
                out.append("</em>");
                proof {
                    assert(out@ + em_from(s@, j + 1 as int) =~= em_pass(s@));
                }
                pos = j + 1;
            },
            _ => {
                out.append(s.substring_char(pos, n));
                proof {
                    assert(out@ =~= em_pass(s@));
                }
                return out;
            },
        }
    }
}

/// The strong-emphasis pass from index `pos` on: the leftmost pair of
/// double asterisks, matched lazily, delimits text wrapped in
/// `<strong>` tags; the search resumes after the closing delimiter.
/// An unterminated `**` is left verbatim.
pub open spec fn strong_from(s: Seq<char>, pos: int) -> Seq<char>
    decreases s.len() - pos,
    when 0 <= pos <= s.len()
{
    match find2_from(s, '*', pos) {
        None => s.subrange(pos, s.len() as int),
        Some(i) => match find2_from(s, '*', i + 2) {
            None => s.subrange(pos, s.len() as int),
            Some(j) => {
                proof {
                    lemma_find2_from(s, '*', pos);
                    lemma_find2_from(s, '*', i + 2);
                }
                s.subrange(pos, i) + "<strong>"@ + s.subrange(i + 2, j) + "</strong>"@
                    + strong_from(s, j + 2)
            },
        },
    }
}

/// The strong-emphasis pass over a whole line.
pub open spec fn strong_pass(s: Seq<char>) -> Seq<char> {
    strong_from(s, 0)
}

/// Runtime strong-emphasis pass.
pub fn apply_strong(s: &str) -> (r: String)
    ensures
        r@ == strong_pass(s@),
{
    let n = s.unicode_len();
    let mut out = String::new();
    let mut pos: usize = 0;
    loop
        invariant
            pos <= n,
            n == s@.len(),
            strong_pass(s@) == out@ + strong_from(s@, pos as int),
        decreases n - pos,
    {
        let open = find_pair(s, '*', pos);
        let close = match open {
            None => None,
            Some(i) => {
                proof {
                    lemma_find2_from(s@, '*', pos as int);
                }
                find_pair(s, '*', i + 2)
            },
        };
        match (open, close) {
            (Some(i), Some(j)) => {
                proof {
                    lemma_find2_from(s@, '*', pos as int);
                    lemma_find2_from(s@, '*', i + 2 as int);
                }
                out.append(s.substring_char(pos, i));
                out.append("<strong>");
                out.append(s.substring_char(i + 2, j));
                out.append("</strong>");
                proof {
                    assert(out@ + strong_from(s@, j + 2 as int) =~= strong_pass(s@));
                }
                pos = j + 2;
            },
            _ => {
                out.append(s.substring_char(pos, n));
                proof {
                    assert(out@ =~= strong_pass(s@));
                }
                return out;
            },
        }
    }
}

/// Index of the first position at or after `i` where a link's text can
/// close: a `]` followed directly by `(`, with a `)` somewhere after.
pub open spec fn find_link_close(s: Seq<char>, i: int) -> Option<int>
    decreases s.len() - i,
    when 0 <= i <= s.len()
{
    if i >= s.len() {
        None
    } else if s[i] == ']' && i + 1 < s.len() && s[i + 1] == '(' && find_from(s, ')', i + 2) is Some {
        Some(i)
    } else {
        find_link_close(s, i + 1)
    }
}

/// Bounds and meaning of a successful search for a link's closing.
pub proof fn lemma_find_link_close(s: Seq<char>, i: int)
    requires
        0 <= i <= s.len(),
    ensures
        match find_link_close(s, i) {
            Some(j) => i <= j && j + 1 < s.len() && s[j] == ']' && s[j + 1] == '(' && find_from(
                s,
                ')',
                j + 2,
            ) is Some,
            None => true,
        },
    decreases s.len() - i,
{
    if i < s.len() {
        if !(s[i] == ']' && i + 1 < s.len() && s[i + 1] == '(' && find_from(s, ')', i + 2) is Some) {
            lemma_find_link_close(s, i + 1);
        }
    }
}

/// The link pass from index `pos` on: the leftmost `[text](href)`
/// group, with `text` matched lazily, becomes an anchor tag; the
/// search resumes after the closing parenthesis.  Anything that never
/// completes the group is left verbatim.
pub open spec fn link_from(s: Seq<char>, pos: int) -> Seq<char>
    decreases s.len() - pos,
    when 0 <= pos <= s.len()
{
    match find_from(s, '[', pos) {
        None => s.subrange(pos, s.len() as int),
        Some(i) => match find_link_close(s, i + 1) {
            None => s.subrange(pos, s.len() as int),
            Some(j) => match find_from(s, ')', j + 2) {
                None => s.subrange(pos, s.len() as int),
                Some(k) => {
                    proof {
                        lemma_find_from(s, '[', pos);
                        lemma_find_link_close(s, i + 1);
                        lemma_find_from(s, ')', j + 2);
                    }
                    s.subrange(pos, i) + "<a href=\""@ + s.subrange(j + 2, k) + "\">"@ + s.subrange(
                        i + 1,
                        j,
                    ) + "</a>"@ + link_from(s, k + 1)
                },
            },
        },
    }
}

/// The link pass over a whole line.
pub open spec fn link_pass(s: Seq<char>) -> Seq<char> {
    link_from(s, 0)
}

/// Runtime search for a link's closing `](...)`.
fn find_link_close_at(s: &str, from: usize) -> (r: Option<usize>)
    requires
        from <= s@.len(),
    ensures
        match r {
            Some(j) => find_link_close(s@, from as int) == Some(j as int),
            None => find_link_close(s@, from as int) is None,
        },
{
    let n = s.unicode_len();
    let mut j = from;
    while j < n
        invariant
            from <= j <= n,
            n == s@.len(),
            find_link_close(s@, from as int) == find_link_close(s@, j as int),
        decreases n - j,
    {
        if s.get_char(j) == ']' && j + 1 < n && s.get_char(j + 1) == '(' {
            match find_char(s, ')', j + 2) {
                Some(_) => {
                    return Some(j);
                },
                None => {},
            }
        }
        j = j + 1;
    }
    None
}

/// Runtime link pass.
pub fn apply_link(s: &str) -> (r: String)
    ensures
        r@ == link_pass(s@),
{
    let n = s.unicode_len();
    let mut out = String::new();
    let mut pos: usize = 0;
    loop
        invariant
            pos <= n,
            n == s@.len(),
            link_pass(s@) == out@ + link_from(s@, pos as int),
        decreases n - pos,
    {
        let open = find_char(s, '[', pos);
        let close = match open {
            None => None,
            Some(i) => {
                proof {
                    lemma_find_from(s@, '[', pos as int);
                }
                find_link_close_at(s, i + 1)
            },
        };
        match (open, close) {
            (Some(i), Some(j)) => {
                proof {
                    lemma_find_from(s@, '[', pos as int);
                    lemma_find_link_close(s@, i + 1 as int);
                }
                let k = match find_char(s, ')', j + 2) {
                    Some(k) => k,
                    None => {
                        proof {
                            assert(false);
                        }
                        unreached()
                    },
                };
                proof {
                    lemma_find_from(s@, ')', j + 2 as int);
                }
                out.append(s.substring_char(pos, i));
                out.append("<a href=\"");
                out.append(s.substring_char(j + 2, k));
                out.append("\">");
                out.append(s.substring_char(i + 1, j));
                out.append("</a>");
                proof {
                    assert(out@ + link_from(s@, k + 1 as int) =~= link_pass(s@));
                }
                pos = k + 1;
            },
            _ => {
                out.append(s.substring_char(pos, n));
                proof {
                    assert(out@ =~= link_pass(s@));
                }
                return out;
            },
        }
    }
}

/// Length of the backtick run that starts at `i`.
pub open spec fn run_len_from(s: Seq<char>, i: int) -> int
    decreases s.len() - i,
    when 0 <= i <= s.len()
{
    if i == s.len() {
        0
    } else if s[i] == '`' {
        1 + run_len_from(s, i + 1)
    } else {
        0
    }
}

/// Bounds and meaning of a backtick run's length.
pub proof fn lemma_run_len_from(s: Seq<char>, i: int)
    requires
        0 <= i <= s.len(),
    ensures
        0 <= run_len_from(s, i),
        i + run_len_from(s, i) <= s.len(),
        i < s.len() && s[i] == '`' ==> run_len_from(s, i) >= 1,
        forall|k: int| i <= k < i + run_len_from(s, i) ==> s[k] == '`',
        i + run_len_from(s, i) < s.len() ==> s[i + run_len_from(s, i)] != '`',
    decreases s.len() - i,
{
    if i < s.len() && s[i] == '`' {
        lemma_run_len_from(s, i + 1);
    }
}

/// First opening position for inline code at or after `i`: a backtick
/// that is not escaped by a preceding backslash.
pub open spec fn find_code_open(s: Seq<char>, i: int) -> Option<int>
    decreases s.len() - i,
    when 0 <= i <= s.len()
{
    if i == s.len() {
        None
    } else if s[i] == '`' && (i == 0 || s[i - 1] != '\\') {
        Some(i)
    } else {
        find_code_open(s, i + 1)
    }
}

/// Bounds and meaning of a successful search for an opening run.
pub proof fn lemma_find_code_open(s: Seq<char>, i: int)
    requires
        0 <= i <= s.len(),
    ensures
        match find_code_open(s, i) {
            Some(j) => i <= j < s.len() && s[j] == '`' && (j == 0 || s[j - 1] != '\\'),
            None => true,
        },
    decreases s.len() - i,
{
    if i < s.len() {
        if !(s[i] == '`' && (i == 0 || s[i - 1] != '\\')) {
            lemma_find_code_open(s, i + 1);
        }
    }
}

/// First closing position at or after `i` for an opening run of length
/// `a`: the start of a backtick run at least `a` long, neither escaped
/// by a backslash nor preceded by another backtick.
pub open spec fn find_code_close(s: Seq<char>, i: int, a: int) -> Option<int>
    decreases s.len() - i,
    when 0 <= i <= s.len()
{
    if i == s.len() {
        None
    } else if s[i] == '`' && i > 0 && s[i - 1] != '`' && s[i - 1] != '\\' && run_len_from(s, i)
        >= a {
        Some(i)
    } else {
        find_code_close(s, i + 1, a)
    }
}

/// Bounds and meaning of a successful search for a closing run.
pub proof fn lemma_find_code_close(s: Seq<char>, i: int, a: int)
    requires
        0 <= i <= s.len(),
    ensures
        match find_code_close(s, i, a) {
            Some(j) => i <= j < s.len() && s[j] == '`' && j > 0 && s[j - 1] != '`' && s[j - 1]
                != '\\' && run_len_from(s, j) >= a,
            None => true,
        },
    decreases s.len() - i,
{
    if i < s.len() {
        if !(s[i] == '`' && i > 0 && s[i - 1] != '`' && s[i - 1] != '\\' && run_len_from(s, i)
            >= a) {
            lemma_find_code_close(s, i + 1, a);
        }
    }
}

/// The inline-code pass from index `pos` on.  The leftmost unescaped
/// backtick opens a delimiter run; the first later run that is at
/// least as long, stands on its own (not preceded by a backtick) and
/// is not escaped closes it, so a span wrapped in a longer run may
/// contain literal backticks.  The non-empty text between the runs is
/// wrapped in `<code>` tags.  A run that never closes is left verbatim
/// and scanning resumes behind it.
pub open spec fn code_from(s: Seq<char>, pos: int) -> Seq<char>
    decreases s.len() - pos,
    when 0 <= pos <= s.len()
{
    match find_code_open(s, pos) {
        None => s.subrange(pos, s.len() as int),
        Some(i) => {
            let a = run_len_from(s, i);
            proof {
                lemma_find_code_open(s, pos);
                lemma_run_len_from(s, i);
            }
            if i + a >= s.len() {
                s.subrange(pos, s.len() as int)
            } else {
                match find_code_close(s, i + a + 1, a) {
                    None => s.subrange(pos, i + a) + code_from(s, i + a),
                    Some(j) => {
                        let b = run_len_from(s, j);
                        proof {
                            lemma_find_code_close(s, i + a + 1, a);
                            lemma_run_len_from(s, j);
                        }
                        s.subrange(pos, i) + "<code>"@ + s.subrange(i + a, j) + "</code>"@
                            + code_from(s, j + b)
                    },
                }
            }
        },
    }
}

/// The inline-code pass over a whole line.
pub open spec fn code_pass(s: Seq<char>) -> Seq<char> {
    code_from(s, 0)
}

/// Runtime length of the backtick run starting at `i`.
fn run_len_at(s: &str, i: usize) -> (r: usize)
    requires
        i <= s@.len(),
    ensures
        r == run_len_from(s@, i as int),
{
    let n = s.unicode_len();
    let mut j = i;
    while j < n && s.get_char(j) == '`'
        invariant
            i <= j <= n,
            n == s@.len(),
            run_len_from(s@, i as int) == (j - i) + run_len_from(s@, j as int),
        decreases n - j,
    {
        j = j + 1;
    }
    j - i
}

/// Runtime search for an opening backtick run.
fn find_code_open_at(s: &str, from: usize) -> (r: Option<usize>)
    requires
        from <= s@.len(),
    ensures
        match r {
            Some(j) => find_code_open(s@, from as int) == Some(j as int),
            None => find_code_open(s@, from as int) is None,
        },
{
    let n = s.unicode_len();
    let mut j = from;
    while j < n
        invariant
            from <= j <= n,
            n == s@.len(),
            find_code_open(s@, from as int) == find_code_open(s@, j as int),
        decreases n - j,
    {
        if s.get_char(j) == '`' && (j == 0 || s.get_char(j - 1) != '\\') {
            return Some(j);
        }
        j = j + 1;
    }
    None
}

/// Runtime search for a closing backtick run of length at least `a`.
fn find_code_close_at(s: &str, from: usize, a: usize) -> (r: Option<usize>)
    requires
        from <= s@.len(),
    ensures
        match r {
            Some(j) => find_code_close(s@, from as int, a as int) == Some(j as int),
            None => find_code_close(s@, from as int, a as int) is None,
        },
{
    let n = s.unicode_len();
    let mut j = from;
    while j < n
        invariant
            from <= j <= n,
            n == s@.len(),
            find_code_close(s@, from as int, a as int) == find_code_close(
                s@,
                j as int,
                a as int,
            ),
        decreases n - j,
    {
        if s.get_char(j) == '`' && j > 0 && s.get_char(j - 1) != '`' && s.get_char(j - 1) != '\\' {
            let b = run_len_at(s, j);
            if b >= a {
                return Some(j);
            }
        }
        j = j + 1;
    }
    None
}

/// Runtime inline-code pass.
pub fn apply_code(s: &str) -> (r: String)
    ensures
        r@ == code_pass(s@),
{
    let n = s.unicode_len();
    let mut out = String::new();
    let mut pos: usize = 0;
    loop
        invariant
            pos <= n,
            n == s@.len(),
            code_pass(s@) == out@ + code_from(s@, pos as int),
        decreases n - pos,
    {
        match find_code_open_at(s, pos) {
            None => {
                out.append(s.substring_char(pos, n));
                proof {
                    assert(out@ =~= code_pass(s@));
                }
                return out;
            },
            Some(i) => {
                proof {
                    lemma_find_code_open(s@, pos as int);
                }
                let a = run_len_at(s, i);
                proof {
                    lemma_run_len_from(s@, i as int);
                }
                if i + a >= n {
                    out.append(s.substring_char(pos, n));
                    proof {
                        assert(out@ =~= code_pass(s@));
                    }
                    return out;
                }
                match find_code_close_at(s, i + a + 1, a) {
                    None => {
                        out.append(s.substring_char(pos, i + a));
                        proof {
                            assert(out@ + code_from(s@, i + a as int) =~= code_pass(s@));
                        }
                        pos = i + a;
                    },
                    Some(j) => {
                        proof {
                            lemma_find_code_close(s@, i + a + 1 as int, a as int);
                        }
                        let b = run_len_at(s, j);
                        proof {
                            lemma_run_len_from(s@, j as int);
                        }
                        out.append(s.substring_char(pos, i));
                        out.append("<code>");
                        out.append(s.substring_char(i + a, j));
                        out.append("</code>");
                        proof {
                            assert(out@ + code_from(s@, j + b as int) =~= code_pass(s@));
                        }
                        pos = j + b;
                    },
                }
            },
        }
    }
}

/// The un-escaping pass from index `pos` on: every `\``  pair becomes
/// a single literal backtick; every other character stands for itself.
pub open spec fn unescape_from(s: Seq<char>, pos: int) -> Seq<char>
    decreases s.len() - pos,
    when 0 <= pos <= s.len()
{
    if pos == s.len() {
        Seq::empty()
    } else if s[pos] == '\\' && pos + 1 < s.len() && s[pos + 1] == '`' {
        seq!['`'] + unescape_from(s, pos + 2)
    } else {
        seq![s[pos]] + unescape_from(s, pos + 1)
    }
}

/// The un-escaping pass over a whole line.
pub open spec fn unescape_pass(s: Seq<char>) -> Seq<char> {
    unescape_from(s, 0)
}

/// Runtime un-escaping pass.
pub fn apply_unescape(s: &str) -> (r: String)
    ensures
        r@ == unescape_pass(s@),
{
    let n = s.unicode_len();
    let mut out = String::new();
    let mut pos: usize = 0;
    while pos < n
        invariant
            pos <= n,
            n == s@.len(),
            unescape_pass(s@) == out@ + unescape_from(s@, pos as int),
        decreases n - pos,
    {
        let c = s.get_char(pos);
        if c == '\\' && pos + 1 < n && s.get_char(pos + 1) == '`' {
            out.append("`");
            proof {
                assert("`"@ =~= seq!['`']) by {
                    reveal_strlit("`");
                }
                assert(out@ + unescape_from(s@, pos + 2 as int) =~= unescape_pass(s@));
            }
            pos = pos + 2;
        } else {
            push_char(&mut out, c);
            proof {
                assert(out@ + unescape_from(s@, pos + 1 as int) =~= unescape_pass(s@));
            }
            pos = pos + 1;
        }
    }
    proof {
        assert(out@ =~= unescape_pass(s@));
    }
    out
}

/// One line after all inline passes, in their fixed order: escaping
/// first (so later replacements are never re-escaped), then emphasis,
/// strong emphasis, links, inline code, and un-escaping last.
pub open spec fn line_html(l: Seq<char>) -> Seq<char> {
    unescape_pass(code_pass(link_pass(strong_pass(em_pass(escaped(l))))))
}

/// One source line as a newline-terminated HTML paragraph.
pub open spec fn paragraph_html(l: Seq<char>) -> Seq<char> {
    "<p class=\"droplet-text\">"@ + line_html(l) + "</p>\n"@
}

/// The paragraphs of a trimmed document from index `pos` on, one per
/// source line, in input order.
pub open spec fn doc_from(s: Seq<char>, pos: int) -> Seq<char>
    decreases s.len() - pos,
    when 0 <= pos <= s.len()
{
    match find_from(s, '\n', pos) {
        None => paragraph_html(s.subrange(pos, s.len() as int)),
        Some(i) => {
            proof {
                lemma_find_from(s, '\n', pos);
            }
            paragraph_html(s.subrange(pos, i)) + doc_from(s, i + 1)
        },
    }
}

/// The whole conversion: the document is trimmed, an empty document
/// gives empty output, and otherwise every line (even a blank one)
/// becomes one paragraph.
pub open spec fn convert_spec(s: Seq<char>) -> Seq<char> {
    let t = trimmed(s);
    if t.len() == 0 {
        Seq::empty()
    } else {
        doc_from(t, 0)
    }
}

/// Runtime conversion of one line to its inner HTML.
fn line_to_html(l: &str) -> (r: String)
    ensures
        r@ == line_html(l@),
{
    let e = apply_escape(l);
    let em = apply_em(e.as_str());
    let st = apply_strong(em.as_str());
    let li = apply_link(st.as_str());
    let co = apply_code(li.as_str());
    apply_unescape(co.as_str())
}

/// Converts a whole markup document into HTML paragraphs.  Total and
/// deterministic: malformed markup is left verbatim, never rejected.
pub fn convert(raw: &str) -> (r: String)
    ensures
        r@ == convert_spec(raw@),
{
    let t = trim_str(raw);
    let n = t.unicode_len();
    if n == 0 {
        return String::new();
    }
    let mut out = String::new();
    let mut pos: usize = 0;
    loop
        invariant
            pos <= n,
            n == t@.len(),
            t@ == trimmed(raw@),
            t@.len() > 0,
            convert_spec(raw@) == out@ + doc_from(t@, pos as int),
        decreases n - pos,
    {
        match find_char(t, '\n', pos) {
            None => {
                let line = t.substring_char(pos, n);
                out.append("<p class=\"droplet-text\">");
                let h = line_to_html(line);
                out.append(h.as_str());
                out.append("</p>\n");
                proof {
                    assert(out@ =~= convert_spec(raw@));
                }
                return out;
            },
            Some(i) => {
                proof {
                    lemma_find_from(t@, '\n', pos as int);
                }
                let line = t.substring_char(pos, i);
                out.append("<p class=\"droplet-text\">");
                let h = line_to_html(line);
                out.append(h.as_str());
                out.append("</p>\n");
                proof {
                    assert(out@ + doc_from(t@, i + 1 as int) =~= convert_spec(raw@));
                }
                pos = i + 1;
            },
        }
    }
}

} // verus!
