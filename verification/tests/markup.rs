use spindrift::markup::convert;

const P_OPEN: &str = "<p class=\"droplet-text\">";

fn para(inner: &str) -> String {
    format!("{}{}</p>\n", P_OPEN, inner)
}

#[test]
fn escape_single_line() {
    assert_eq!(convert("a < b & c > d"), para("a &lt; b &amp; c &gt; d"));
}

#[test]
fn escape_adjacent_unsafe_chars() {
    assert_eq!(convert("<<&>>"), para("&lt;&lt;&amp;&gt;&gt;"));
}

#[test]
fn emphasis_simple() {
    assert_eq!(convert("_hi_"), para("<em>hi</em>"));
}

#[test]
fn strong_simple() {
    assert_eq!(convert("**hi**"), para("<strong>hi</strong>"));
}

#[test]
fn link_simple() {
    assert_eq!(
        convert("[x](http://y)"),
        para("<a href=\"http://y\">x</a>")
    );
}

#[test]
fn code_simple() {
    assert_eq!(convert("`a`"), para("<code>a</code>"));
}

#[test]
fn code_longer_run_embeds_backtick() {
    assert_eq!(convert("``a`b``"), para("<code>a`b</code>"));
}

#[test]
fn escaped_backtick_stays_literal() {
    assert_eq!(convert("\\`x"), para("`x"));
}

#[test]
fn empty_document_gives_empty_output() {
    assert_eq!(convert(""), "");
    assert_eq!(convert("   \n  "), "");
}

#[test]
fn blank_inner_line_still_makes_a_paragraph() {
    assert_eq!(
        convert("one\n\ntwo"),
        format!("{}{}{}", para("one"), para(""), para("two"))
    );
}

#[test]
fn trailing_newline_is_stripped_before_splitting() {
    assert_eq!(convert("x\n"), para("x"));
}

#[test]
fn adjacent_spans_convert_independently() {
    assert_eq!(
        convert("_a_ and _b_"),
        para("<em>a</em> and <em>b</em>")
    );
    assert_eq!(
        convert("**a** _b_ [c](d) `e`"),
        para("<strong>a</strong> <em>b</em> <a href=\"d\">c</a> <code>e</code>")
    );
}

#[test]
fn unterminated_markup_is_left_verbatim() {
    assert_eq!(convert("_hi"), para("_hi"));
    assert_eq!(convert("**hi"), para("**hi"));
    assert_eq!(convert("[x](y"), para("[x](y"));
    assert_eq!(convert("`x"), para("`x"));
}

#[test]
fn empty_emphasis_converts() {
    assert_eq!(convert("__"), para("<em></em>"));
}

#[test]
fn conversion_is_total_on_arbitrary_text() {
    // No input may make conversion fail; a messy mix stays text.
    let messy = "a & _b ** ` [ ] ( ) \\ < >";
    let out = convert(messy);
    assert!(out.starts_with(P_OPEN));
    assert!(out.ends_with("</p>\n"));
}

#[test]
fn lines_keep_input_order() {
    let out = convert("first\nsecond\nthird");
    let first = out.find("first").unwrap();
    let second = out.find("second").unwrap();
    let third = out.find("third").unwrap();
    assert!(first < second && second < third);
}
