//! One post ("droplet"): its metadata, title, optional image and
//! optional raw markup content, together with the derivation of its
//! output file name and of its render context.

use vstd::prelude::*;

use crate::context::{ContextValue, ContextValueView, RenderContext};
use crate::markup::{convert, convert_spec};
use crate::text::{
    lemma_scan_token_end, lemma_scan_ws_left, push_char, scan_token_end, scan_ws_left, skip_ws_at,
    token_end_at, trim_str, trimmed,
};

verus! {

/// A calendar date as plain year, month and day numbers.  Calendar
/// validation proper is the business of whatever parsed the date; this
/// type only keeps the fields inside their nominal ranges.
#[derive(Clone, Copy, Debug, PartialEq, Eq, Structural)]
pub struct Date {
    pub year: i32,
    pub month: u8,
    pub day: u8,
}

impl Date {
    /// The nominal field ranges of a date.
    pub open spec fn well_formed(self) -> bool {
        1 <= self.month <= 12 && 1 <= self.day <= 31
    }

    /// Builds a date when the fields are in range, and nothing
    /// otherwise.
    pub fn new(year: i32, month: u8, day: u8) -> (r: Option<Date>)
        ensures
            ({
                let d = Date { year, month, day };
                if d.well_formed() {
                    r == Some(d)
                } else {
                    r is None
                }
            }),
    {
        if 1 <= month && month <= 12 && 1 <= day && day <= 31 {
            Some(Date { year, month, day })
        } else {
            None
        }
    }
}

/// The metadata of one droplet.
pub struct DropletMeta {
    /// Free-form tags; their order carries no meaning.
    pub tags: Option<Vec<String>>,
    /// The author of the post.
    pub author: String,
    /// The date of the post.
    pub date: Option<Date>,
    /// The derived output path; `None` until the pipeline derives it
    /// from the title, then set exactly once.
    pub path: Option<String>,
}

/// The mathematical value of a `DropletMeta`.
pub struct DropletMetaView {
    pub tags: Option<Seq<Seq<char>>>,
    pub author: Seq<char>,
    pub date: Option<Date>,
    pub path: Option<Seq<char>>,
}

impl View for DropletMeta {
    type V = DropletMetaView;

    open spec fn view(&self) -> DropletMetaView {
        DropletMetaView {
            tags: match self.tags {
                Some(v) => Some(v@.map(|i: int, s: String| s@)),
                None => None,
            },
            author: self.author@,
            date: self.date,
            path: match self.path {
                Some(p) => Some(p@),
                None => None,
            },
        }
    }
}

/// The image descriptor of one droplet.
pub struct DropletImage {
    /// The path of the image, kept verbatim.
    pub src: String,
    /// Alt text for accessibility.
    pub alt: Option<String>,
    /// Copyright information.
    pub copyright: Option<String>,
}

/// The mathematical value of a `DropletImage`.
pub struct DropletImageView {
    pub src: Seq<char>,
    pub alt: Option<Seq<char>>,
    pub copyright: Option<Seq<char>>,
}

impl View for DropletImage {
    type V = DropletImageView;

    open spec fn view(&self) -> DropletImageView {
        DropletImageView {
            src: self.src@,
            alt: match self.alt {
                Some(a) => Some(a@),
                None => None,
            },
            copyright: match self.copyright {
                Some(c) => Some(c@),
                None => None,
            },
        }
    }
}

/// One post.
pub struct Droplet {
    /// Metadata for this post.
    pub meta: DropletMeta,
    /// The title of the post.
    pub title: String,
    /// Image content for the post.
    pub image: Option<DropletImage>,
    /// Raw markup content for the post.
    pub content: Option<String>,
}

/// The mathematical value of a `Droplet`.
pub struct DropletView {
    pub meta: DropletMetaView,
    pub title: Seq<char>,
    pub image: Option<DropletImageView>,
    pub content: Option<Seq<char>>,
}

impl View for Droplet {
    type V = DropletView;

    open spec fn view(&self) -> DropletView {
        DropletView {
            meta: self.meta@,
            title: self.title@,
            image: match self.image {
                Some(ref i) => Some(i@),
                None => None,
            },
            content: match self.content {
                Some(c) => Some(c@),
                None => None,
            },
        }
    }
}

/// What one title character contributes to the derived file name:
/// ASCII upper-case letters are lower-cased, lower-case letters and
/// digits are kept, every other character is dropped.
pub open spec fn keep_char(c: char) -> Seq<char> {
    let u = c as u32;
    if (97 <= u && u <= 122) || (48 <= u && u <= 57) {
        seq![c]
    } else if 65 <= u && u <= 90 {
        lower_lit(c)
    } else {
        Seq::empty()
    }
}

/// The lower-case letter for an ASCII upper-case letter.
pub open spec fn lower_lit(c: char) -> Seq<char> {
    if c == 'A' {
        "a"@
    } else if c == 'B' {
        "b"@
    } else if c == 'C' {
        "c"@
    } else if c == 'D' {
        "d"@
    } else if c == 'E' {
        "e"@
    } else if c == 'F' {
        "f"@
    } else if c == 'G' {
        "g"@
    } else if c == 'H' {
        "h"@
    } else if c == 'I' {
        "i"@
    } else if c == 'J' {
        "j"@
    } else if c == 'K' {
        "k"@
    } else if c == 'L' {
        "l"@
    } else if c == 'M' {
        "m"@
    } else if c == 'N' {
        "n"@
    } else if c == 'O' {
        "o"@
    } else if c == 'P' {
        "p"@
    } else if c == 'Q' {
        "q"@
    } else if c == 'R' {
        "r"@
    } else if c == 'S' {
        "s"@
    } else if c == 'T' {
        "t"@
    } else if c == 'U' {
        "u"@
    } else if c == 'V' {
        "v"@
    } else if c == 'W' {
        "w"@
    } else if c == 'X' {
        "x"@
    } else if c == 'Y' {
        "y"@
    } else {
        "z"@
    }
}

/// The kept characters of `s` between `i` and `b`.
pub open spec fn strip_range(s: Seq<char>, i: int, b: int) -> Seq<char>
    decreases b - i,
    when 0 <= i <= b <= s.len()
{
    if i == b {
        Seq::empty()
    } else {
        keep_char(s[i]) + strip_range(s, i + 1, b)
    }
}

/// Every title token at or after `i`, stripped, each preceded by the
/// hyphen that joins it to the token before it.
pub open spec fn more_tokens_from(s: Seq<char>, i: int) -> Seq<char>
    decreases s.len() - i,
    when 0 <= i <= s.len()
{
    let a = scan_ws_left(s, i);
    proof {
        lemma_scan_ws_left(s, i);
    }
    if a == s.len() {
        Seq::empty()
    } else {
        let b = scan_token_end(s, a);
        proof {
            lemma_scan_token_end(s, a);
        }
        "-"@ + strip_range(s, a, b) + more_tokens_from(s, b)
    }
}

/// The title's whitespace-separated tokens, stripped and joined by
/// single hyphens.  A token whose characters are all dropped joins as
/// an empty string.
pub open spec fn joined_tokens(s: Seq<char>) -> Seq<char> {
    let a = scan_ws_left(s, 0);
    if a == s.len() {
        Seq::empty()
    } else {
        let b = scan_token_end(s, a);
        strip_range(s, a, b) + more_tokens_from(s, b)
    }
}

/// The output file name derived from a title.
pub open spec fn file_name_spec(title: Seq<char>) -> Seq<char> {
    joined_tokens(title) + ".html"@
}

/// Appends what one character contributes to a file name.
fn push_kept(out: &mut String, c: char)
    ensures
        final(out)@ == old(out)@ + keep_char(c),
{
    let u = c as u32;
    if (97 <= u && u <= 122) || (48 <= u && u <= 57) {
        push_char(out, c);
    } else if 65 <= u && u <= 90 {
        match c {
            'A' => out.append("a"),
            'B' => out.append("b"),
            'C' => out.append("c"),
            'D' => out.append("d"),
            'E' => out.append("e"),
            'F' => out.append("f"),
            'G' => out.append("g"),
            'H' => out.append("h"),
            'I' => out.append("i"),
            'J' => out.append("j"),
            'K' => out.append("k"),
            'L' => out.append("l"),
            'M' => out.append("m"),
            'N' => out.append("n"),
            'O' => out.append("o"),
            'P' => out.append("p"),
            'Q' => out.append("q"),
            'R' => out.append("r"),
            'S' => out.append("s"),
            'T' => out.append("t"),
            'U' => out.append("u"),
            'V' => out.append("v"),
            'W' => out.append("w"),
            'X' => out.append("x"),
            'Y' => out.append("y"),
            _ => out.append("z"),
        }
    } else {
        proof {
            assert(out@ =~= old(out)@ + keep_char(c));
        }
    }
}

/// Appends the kept characters of `s` between `a` and `b`.
fn append_stripped(out: &mut String, s: &str, a: usize, b: usize)
    requires
        a <= b <= s@.len(),
    ensures
        final(out)@ == old(out)@ + strip_range(s@, a as int, b as int),
{
    let mut k = a;
    while k < b
        invariant
            a <= k <= b <= s@.len(),
            old(out)@ + strip_range(s@, a as int, b as int) == out@ + strip_range(
                s@,
                k as int,
                b as int,
            ),
        decreases b - k,
    {
        let c = s.get_char(k);
        push_kept(out, c);
        proof {
            assert(out@ + strip_range(s@, k + 1 as int, b as int) =~= old(out)@ + strip_range(
                s@,
                a as int,
                b as int,
            ));
        }
        k = k + 1;
    }
    proof {
        assert(out@ =~= old(out)@ + strip_range(s@, a as int, b as int));
    }
}

/// Derives the output file name from a title: lower-case the title,
/// split it on whitespace, strip every character that is not an ASCII
/// letter or digit, join the surviving tokens with single hyphens and
/// append `.html`.  Tokens stripped to nothing still take part in the
/// join.
pub fn derive_file_name(title: &str) -> (r: String)
    ensures
        r@ == file_name_spec(title@),
{
    let n = title.unicode_len();
    let mut out = String::new();
    let a = skip_ws_at(title, 0);
    if a == n {
        out.append(".html");
        proof {
            assert(out@ =~= file_name_spec(title@));
        }
        return out;
    }
    proof {
        lemma_scan_ws_left(title@, 0);
    }
    let b = token_end_at(title, a);
    append_stripped(&mut out, title, a, b);
    let mut pos = b;
    loop
        invariant
            pos <= n,
            n == title@.len(),
            file_name_spec(title@) == out@ + more_tokens_from(title@, pos as int) + ".html"@,
        decreases n - pos,
    {
        let a2 = skip_ws_at(title, pos);
        if a2 == n {
            out.append(".html");
            proof {
                assert(out@ =~= file_name_spec(title@));
            }
            return out;
        }
        proof {
            lemma_scan_ws_left(title@, pos as int);
        }
        let b2 = token_end_at(title, a2);
        proof {
            lemma_scan_token_end(title@, a2 as int);
        }
        out.append("-");
        append_stripped(&mut out, title, a2, b2);
        proof {
            assert(out@ + more_tokens_from(title@, b2 as int) + ".html"@ =~= file_name_spec(
                title@,
            ));
        }
        pos = b2;
    }
}

/// Copies an optional list of tags, keeping its value.
fn clone_tags(t: &Option<Vec<String>>) -> (r: Option<Vec<String>>)
    ensures
        r is Some <==> t is Some,
        t is Some ==> r->0@ == t->0@,
{
    match t {
        None => None,
        Some(v) => {
            let mut out: Vec<String> = Vec::new();
            let mut i: usize = 0;
            while i < v.len()
                invariant
                    i <= v.len(),
                    out@ == v@.subrange(0, i as int),
                decreases v.len() - i,
            {
                out.push(v[i].clone());
                proof {
                    assert(out@ =~= v@.subrange(0, i + 1 as int));
                }
                i = i + 1;
            }
            proof {
                assert(out@ =~= v@);
            }
            Some(out)
        },
    }
}

/// Copies an optional string, keeping its value.
fn clone_opt_string(s: &Option<String>) -> (r: Option<String>)
    ensures
        r is Some <==> s is Some,
        s is Some ==> r->0@ == s->0@,
{
    match s {
        None => None,
        Some(p) => Some(p.clone()),
    }
}

impl Clone for DropletMeta {
    /// A copy with the same mathematical value.
    fn clone(&self) -> (res: Self)
        ensures
            res@ == self@,
    {
        let res = DropletMeta {
            tags: clone_tags(&self.tags),
            author: self.author.clone(),
            date: self.date,
            path: clone_opt_string(&self.path),
        };
        proof {
            if self.tags is Some {
                assert(self.tags->0@.map(|i: int, s: String| s@) =~= res.tags->0@.map(
                    |i: int, s: String| s@,
                ));
            }
        }
        res
    }
}

impl DropletMeta {
    /// Records the derived output path; every other field keeps its
    /// value.
    pub fn set_path(&mut self, path: String)
        ensures
            final(self)@ == (DropletMetaView { path: Some(path@), ..old(self)@ }),
    {
        self.path = Some(path);
    }
}

/// The alt text as the image attribute carries it: trimmed, with
/// every line break removed.
pub open spec fn clean_alt_from(s: Seq<char>, i: int) -> Seq<char>
    decreases s.len() - i,
    when 0 <= i <= s.len()
{
    if i == s.len() {
        Seq::empty()
    } else if s[i] == '\n' {
        clean_alt_from(s, i + 1)
    } else {
        seq![s[i]] + clean_alt_from(s, i + 1)
    }
}

/// The cleaned form of a raw alt text.
pub open spec fn clean_alt(s: Seq<char>) -> Seq<char> {
    clean_alt_from(trimmed(s), 0)
}

/// Cleans a raw alt text at runtime.
fn clean_alt_str(s: &str) -> (r: String)
    ensures
        r@ == clean_alt(s@),
{
    let t = trim_str(s);
    let n = t.unicode_len();
    let mut out = String::new();
    let mut i: usize = 0;
    while i < n
        invariant
            i <= n,
            n == t@.len(),
            t@ == trimmed(s@),
            clean_alt(s@) == out@ + clean_alt_from(t@, i as int),
        decreases n - i,
    {
        let c = t.get_char(i);
        if c != '\n' {
            push_char(&mut out, c);
        }
        proof {
            assert(out@ + clean_alt_from(t@, i + 1 as int) =~= clean_alt(s@));
        }
        i = i + 1;
    }
    proof {
        assert(out@ =~= clean_alt(s@));
    }
    out
}

/// The image tag emitted for an image descriptor: the configured
/// source path is carried verbatim, and an alt attribute appears
/// exactly when alt text was supplied.
pub open spec fn image_html_spec(img: DropletImageView) -> Seq<char> {
    "<img class=\"spindrift-img\" src=\""@ + img.src + "\""@ + (match img.alt {
        Some(a) => " alt=\""@ + clean_alt(a) + "\""@,
        None => Seq::<char>::empty(),
    }) + "/>\n"@
}

impl Droplet {
    /// The droplet's image as a self-closing HTML tag, when it has
    /// one.
    pub fn image_to_html(&self) -> (r: Option<String>)
        ensures
            r is Some <==> self.image is Some,
            self.image is Some ==> r->0@ == image_html_spec(self.image->0@),
    {
        match &self.image {
            None => None,
            Some(img) => {
                let mut out = String::new();
                out.append("<img class=\"spindrift-img\" src=\"");
                out.append(img.src.as_str());
                out.append("\"");
                match &img.alt {
                    Some(alt) => {
                        out.append(" alt=\"");
                        let cleaned = clean_alt_str(alt.as_str());
                        out.append(cleaned.as_str());
                        out.append("\"");
                    },
                    None => {},
                }
                out.append("/>\n");
                proof {
                    assert(out@ =~= image_html_spec(self.image->0@));
                }
                Some(out)
            },
        }
    }

    /// The droplet's content converted to HTML paragraphs, when it
    /// has content.
    pub fn content_to_html(&self) -> (r: Option<String>)
        ensures
            r is Some <==> self.content is Some,
            self.content is Some ==> r->0@ == convert_spec(self.content->0@),
    {
        match &self.content {
            None => None,
            Some(c) => Some(convert(c.as_str())),
        }
    }

    /// The output file name derived from the title.
    pub fn file_name(&self) -> (r: String)
        ensures
            r@ == file_name_spec(self.title@),
    {
        derive_file_name(self.title.as_str())
    }

    /// Derives the output file name and records it in the metadata;
    /// everything else keeps its value.
    pub fn set_file_name(&mut self)
        ensures
            final(self)@ == (DropletView {
                meta: DropletMetaView {
                    path: Some(file_name_spec(old(self).title@)),
                    ..old(self)@.meta
                },
                ..old(self)@
            }),
    {
        let name = self.file_name();
        self.meta.set_path(name);
    }

    /// The render context entries this droplet produces: `content`
    /// only when content was supplied, then `meta` and `title`.
    pub open spec fn spec_context(self) -> Seq<(Seq<char>, ContextValueView)> {
        let tail = seq![
            ("meta"@, ContextValueView::Meta(self.meta@)),
            ("title"@, ContextValueView::Text(self.title@)),
        ];
        match self.content {
            Some(c) => seq![("content"@, ContextValueView::Text(convert_spec(c@)))] + tail,
            None => tail,
        }
    }

    /// Builds the render context for this droplet.  A droplet without
    /// content yields a context without a `content` entry; the
    /// droplet itself is left untouched.
    pub fn as_context(&self) -> (r: RenderContext)
        ensures
            r@ == self.spec_context(),
    {
        let mut ctx = RenderContext::new();
        match &self.content {
            Some(c) => {
                ctx.insert(String::from_str("content"), ContextValue::Text(convert(c.as_str())));
            },
            None => {},
        }
        ctx.insert(String::from_str("meta"), ContextValue::Meta(self.meta.clone()));
        ctx.insert(String::from_str("title"), ContextValue::Text(self.title.clone()));
        proof {
            assert(ctx@ =~= self.spec_context());
        }
        ctx
    }
}

/// A droplet without a `content` field yields a render context with
/// no `content` key at all, not one with an empty value.
pub proof fn lemma_context_omits_content(d: Droplet, ctx: RenderContext)
    requires
        d.content is None,
        ctx@ == d.spec_context(),
    ensures
        !ctx.spec_has_key("content"@),
{
    reveal_strlit("content");
    reveal_strlit("meta");
    reveal_strlit("title");
    assert(ctx@.len() == 2);
    assert(ctx@[0].0 == "meta"@ && ctx@[1].0 == "title"@);
    assert("meta"@.len() == 4 && "title"@.len() == 5 && "content"@.len() == 7);
    assert forall|i: int| 0 <= i < ctx@.len() implies ctx@[i].0 != "content"@ by {
        assert(i == 0 || i == 1);
    }
}

} // verus!
