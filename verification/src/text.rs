//! Character-level helpers shared by the markup converter and the
//! filename derivation: whitespace classification, single-character
//! search over a string view, and appending to a `String`.

use vstd::prelude::*;

verus! {

/// The characters that count as whitespace when a title is split into
/// tokens or a document is trimmed (the Unicode White_Space set).
pub open spec fn is_ws(c: char) -> bool {
    let u = c as u32;
    u == 0x9 || u == 0xA || u == 0xB || u == 0xC || u == 0xD || u == 0x20 || u == 0x85
        || u == 0xA0 || u == 0x1680 || (0x2000 <= u && u <= 0x200A) || u == 0x2028
        || u == 0x2029 || u == 0x202F || u == 0x205F || u == 0x3000
}

/// Runtime whitespace test, equal to the spec-level classification.
pub fn is_ws_char(c: char) -> (b: bool)
    ensures
        b == is_ws(c),
{
    let u = c as u32;
    u == 0x9 || u == 0xA || u == 0xB || u == 0xC || u == 0xD || u == 0x20 || u == 0x85
        || u == 0xA0 || u == 0x1680 || (0x2000 <= u && u <= 0x200A) || u == 0x2028
        || u == 0x2029 || u == 0x202F || u == 0x205F || u == 0x3000
}

/// Index of the first occurrence of `c` in `s` at or after `i`.
pub open spec fn find_from(s: Seq<char>, c: char, i: int) -> Option<int>
    decreases s.len() - i,
    when 0 <= i <= s.len()
{
    if i == s.len() {
        None
    } else if s[i] == c {
        Some(i)
    } else {
        find_from(s, c, i + 1)
    }
}

/// What a successful or failed search means for the characters of `s`.
pub proof fn lemma_find_from(s: Seq<char>, c: char, i: int)
    requires
        0 <= i <= s.len(),
    ensures
        match find_from(s, c, i) {
            Some(j) => i <= j < s.len() && s[j] == c && (forall|k: int| i <= k < j ==> s[k] != c),
            None => forall|k: int| i <= k < s.len() ==> s[k] != c,
        },
    decreases s.len() - i,
{
    if i < s.len() && s[i] != c {
        lemma_find_from(s, c, i + 1);
    }
}

/// Runtime search for `c` in `s` starting at `from`.
pub fn find_char(s: &str, c: char, from: usize) -> (r: Option<usize>)
    requires
        from <= s@.len(),
    ensures
        match r {
            Some(j) => find_from(s@, c, from as int) == Some(j as int),
            None => find_from(s@, c, from as int) is None,
        },
{
    let n = s.unicode_len();
    let mut j = from;
    while j < n
        invariant
            from <= j <= n,
            n == s@.len(),
            find_from(s@, c, from as int) == find_from(s@, c, j as int),
        decreases n - j,
    {
        if s.get_char(j) == c {
            return Some(j);
        }
        j = j + 1;
    }
    None
}

/// Index of the first position at or after `i` where `c` occurs twice
/// in a row.
pub open spec fn find2_from(s: Seq<char>, c: char, i: int) -> Option<int>
    decreases s.len() - i,
    when 0 <= i <= s.len()
{
    if i + 1 >= s.len() {
        None
    } else if s[i] == c && s[i + 1] == c {
        Some(i)
    } else {
        find2_from(s, c, i + 1)
    }
}

/// What a successful or failed pair search means for the characters of `s`.
pub proof fn lemma_find2_from(s: Seq<char>, c: char, i: int)
    requires
        0 <= i <= s.len(),
    ensures
        match find2_from(s, c, i) {
            Some(j) => i <= j && j + 1 < s.len() && s[j] == c && s[j + 1] == c,
            None => forall|k: int|
                i <= k && k + 1 < s.len() ==> !(#[trigger] s[k] == c && s[k + 1] == c),
        },
    decreases s.len() - i,
{
    if i + 1 < s.len() && !(s[i] == c && s[i + 1] == c) {
        lemma_find2_from(s, c, i + 1);
    }
}

/// Runtime search for a doubled `c` in `s` starting at `from`.
pub fn find_pair(s: &str, c: char, from: usize) -> (r: Option<usize>)
    requires
        from <= s@.len(),
    ensures
        match r {
            Some(j) => find2_from(s@, c, from as int) == Some(j as int),
            None => find2_from(s@, c, from as int) is None,
        },
{
    let n = s.unicode_len();
    let mut j = from;
    while n > 0 && j < n - 1
        invariant
            from <= j <= n,
            n == s@.len(),
            find2_from(s@, c, from as int) == find2_from(s@, c, j as int),
        decreases n - j,
    {
        if s.get_char(j) == c && s.get_char(j + 1) == c {
            return Some(j);
        }
        j = j + 1;
    }
    None
}

/// First index at or after `i` that holds a non-whitespace character,
/// or the length of `s` if there is none.
pub open spec fn scan_ws_left(s: Seq<char>, i: int) -> int
    decreases s.len() - i,
    when 0 <= i <= s.len()
{
    if i == s.len() {
        i
    } else if is_ws(s[i]) {
        scan_ws_left(s, i + 1)
    } else {
        i
    }
}

/// One past the last non-whitespace character at an index below `i`,
/// or `0` if there is none.
pub open spec fn scan_ws_right(s: Seq<char>, i: int) -> int
    decreases i,
    when 0 <= i <= s.len()
{
    if i == 0 {
        0
    } else if is_ws(s[i - 1]) {
        scan_ws_right(s, i - 1)
    } else {
        i
    }
}

/// First index at or after `i` that holds whitespace, or the length
/// of `s` if there is none: the end of the token starting at `i`.
pub open spec fn scan_token_end(s: Seq<char>, i: int) -> int
    decreases s.len() - i,
    when 0 <= i <= s.len()
{
    if i == s.len() {
        i
    } else if !is_ws(s[i]) {
        scan_token_end(s, i + 1)
    } else {
        i
    }
}

/// Bounds of the token-end scan.
pub proof fn lemma_scan_token_end(s: Seq<char>, i: int)
    requires
        0 <= i <= s.len(),
    ensures
        i <= scan_token_end(s, i) <= s.len(),
        i < s.len() && !is_ws(s[i]) ==> scan_token_end(s, i) > i,
    decreases s.len() - i,
{
    if i < s.len() && !is_ws(s[i]) {
        lemma_scan_token_end(s, i + 1);
    }
}

/// Runtime scan to the first non-whitespace character at or after
/// `from`.
pub fn skip_ws_at(s: &str, from: usize) -> (r: usize)
    requires
        from <= s@.len(),
    ensures
        r == scan_ws_left(s@, from as int),
        from <= r <= s@.len(),
{
    let n = s.unicode_len();
    let mut j = from;
    while j < n && is_ws_char(s.get_char(j))
        invariant
            from <= j <= n,
            n == s@.len(),
            scan_ws_left(s@, from as int) == scan_ws_left(s@, j as int),
        decreases n - j,
    {
        j = j + 1;
    }
    j
}

/// Runtime scan to the end of the token starting at `from`.
pub fn token_end_at(s: &str, from: usize) -> (r: usize)
    requires
        from <= s@.len(),
    ensures
        r == scan_token_end(s@, from as int),
        from <= r <= s@.len(),
{
    let n = s.unicode_len();
    let mut j = from;
    while j < n && !is_ws_char(s.get_char(j))
        invariant
            from <= j <= n,
            n == s@.len(),
            scan_token_end(s@, from as int) == scan_token_end(s@, j as int),
        decreases n - j,
    {
        j = j + 1;
    }
    j
}

/// `s` without its leading and trailing whitespace.
pub open spec fn trimmed(s: Seq<char>) -> Seq<char> {
    let a = scan_ws_left(s, 0);
    let b = scan_ws_right(s, s.len() as int);
    if a >= b {
        Seq::empty()
    } else {
        s.subrange(a, b)
    }
}

/// Bounds of the left whitespace scan.
pub proof fn lemma_scan_ws_left(s: Seq<char>, i: int)
    requires
        0 <= i <= s.len(),
    ensures
        i <= scan_ws_left(s, i) <= s.len(),
        scan_ws_left(s, i) < s.len() ==> !is_ws(s[scan_ws_left(s, i)]),
    decreases s.len() - i,
{
    if i < s.len() && is_ws(s[i]) {
        lemma_scan_ws_left(s, i + 1);
    }
}

/// Bounds of the right whitespace scan.
pub proof fn lemma_scan_ws_right(s: Seq<char>, i: int)
    requires
        0 <= i <= s.len(),
    ensures
        0 <= scan_ws_right(s, i) <= i,
        scan_ws_right(s, i) > 0 ==> !is_ws(s[scan_ws_right(s, i) - 1]),
    decreases i,
{
    if i > 0 && is_ws(s[i - 1]) {
        lemma_scan_ws_right(s, i - 1);
    }
}

/// Runtime trim of leading and trailing whitespace.
pub fn trim_str<'a>(s: &'a str) -> (r: &'a str)
    ensures
        r@ == trimmed(s@),
{
    let n = s.unicode_len();
    let mut a: usize = 0;
    while a < n && is_ws_char(s.get_char(a))
        invariant
            a <= n,
            n == s@.len(),
            scan_ws_left(s@, 0) == scan_ws_left(s@, a as int),
        decreases n - a,
    {
        a = a + 1;
    }
    let mut b: usize = n;
    while b > a && is_ws_char(s.get_char(b - 1))
        invariant
            a <= b <= n,
            n == s@.len(),
            scan_ws_right(s@, n as int) == scan_ws_right(s@, b as int),
        decreases b,
    {
        b = b - 1;
    }
    proof {
        lemma_scan_ws_left(s@, 0);
        lemma_scan_ws_right(s@, n as int);
        lemma_scan_ws_right(s@, b as int);
    }
    let r = s.substring_char(a, b);
    proof {
        if a >= b {
            assert(r@ =~= trimmed(s@));
        }
    }
    r
}

/// Relies on String::push: appends exactly the one character.
#[verifier::external_body]
pub fn push_char(s: &mut String, c: char)
    ensures
        final(s)@ == old(s)@ + seq![c],
{
    s.push(c)
}

} // verus!
