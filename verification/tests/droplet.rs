use spindrift::context::ContextValue;
use spindrift::droplet::{Date, Droplet, DropletImage, DropletMeta};
use spindrift::errors::Errors;

fn meta(author: &str) -> DropletMeta {
    DropletMeta {
        tags: Some(vec!["a".to_string(), "b".to_string()]),
        author: author.to_string(),
        date: Date::new(2024, 1, 2),
        path: None,
    }
}

fn droplet(title: &str, content: Option<&str>) -> Droplet {
    Droplet {
        meta: meta("someone"),
        title: title.to_string(),
        image: None,
        content: content.map(|c| c.to_string()),
    }
}

#[test]
fn file_name_strips_and_joins() {
    let d = droplet("Hello, World! 2024", None);
    assert_eq!(d.file_name(), "hello-world-2024.html");
}

#[test]
fn file_name_of_all_punctuation_title() {
    let d = droplet("!!!", None);
    assert_eq!(d.file_name(), ".html");
}

#[test]
fn file_name_keeps_empty_tokens_in_join() {
    let d = droplet("!! ??", None);
    assert_eq!(d.file_name(), "-.html");
    let e = droplet("a !! b", None);
    assert_eq!(e.file_name(), "a--b.html");
}

#[test]
fn file_name_collapses_whitespace_runs() {
    let d = droplet("  One   Two  ", None);
    assert_eq!(d.file_name(), "one-two.html");
}

#[test]
fn set_file_name_records_path_once() {
    let mut d = droplet("A Title", None);
    assert_eq!(d.meta.path, None);
    d.set_file_name();
    assert_eq!(d.meta.path, Some("a-title.html".to_string()));
}

#[test]
fn context_omits_content_when_absent() {
    let d = droplet("T", None);
    let ctx = d.as_context();
    assert_eq!(ctx.entries.len(), 2);
    for e in &ctx.entries {
        assert_ne!(e.key, "content");
    }
    assert_eq!(ctx.entries[0].key, "meta");
    assert_eq!(ctx.entries[1].key, "title");
}

#[test]
fn context_holds_converted_content_when_present() {
    let d = droplet("T", Some("_hi_"));
    let ctx = d.as_context();
    assert_eq!(ctx.entries.len(), 3);
    assert_eq!(ctx.entries[0].key, "content");
    match &ctx.entries[0].value {
        ContextValue::Text(html) => {
            assert_eq!(html, "<p class=\"droplet-text\"><em>hi</em></p>\n");
        }
        _ => panic!("content entry should be text"),
    }
    match &ctx.entries[2].value {
        ContextValue::Text(title) => assert_eq!(title, "T"),
        _ => panic!("title entry should be text"),
    }
}

#[test]
fn content_to_html_mirrors_content_presence() {
    assert_eq!(droplet("T", None).content_to_html(), None);
    assert_eq!(
        droplet("T", Some("x")).content_to_html(),
        Some("<p class=\"droplet-text\">x</p>\n".to_string())
    );
}

#[test]
fn image_html_without_alt() {
    let mut d = droplet("T", None);
    d.image = Some(DropletImage {
        src: "img/cat.png".to_string(),
        alt: None,
        copyright: None,
    });
    assert_eq!(
        d.image_to_html(),
        Some("<img class=\"spindrift-img\" src=\"img/cat.png\"/>\n".to_string())
    );
}

#[test]
fn image_html_alt_loses_line_breaks() {
    let mut d = droplet("T", None);
    d.image = Some(DropletImage {
        src: "a.png".to_string(),
        alt: Some("  a cat\nsleeping\n".to_string()),
        copyright: None,
    });
    assert_eq!(
        d.image_to_html(),
        Some("<img class=\"spindrift-img\" src=\"a.png\" alt=\"a catsleeping\"/>\n".to_string())
    );
}

#[test]
fn no_image_no_fragment() {
    assert_eq!(droplet("T", None).image_to_html(), None);
}

#[test]
fn date_accepts_fields_in_range() {
    assert_eq!(
        Date::new(2024, 2, 29),
        Some(Date { year: 2024, month: 2, day: 29 })
    );
}

#[test]
fn date_rejects_fields_out_of_range() {
    assert_eq!(Date::new(2024, 0, 1), None);
    assert_eq!(Date::new(2024, 13, 1), None);
    assert_eq!(Date::new(2024, 1, 0), None);
    assert_eq!(Date::new(2024, 1, 32), None);
}

#[test]
fn error_messages_name_their_kind() {
    let e1 = Errors::InvalidSpindriftPath { path: "p".to_string(), detail: "d".to_string() };
    let e2 = Errors::InvalidSpindriftConfig { path: "p".to_string(), detail: "d".to_string() };
    let e3 = Errors::InvalidDropletPath { path: "p".to_string(), detail: "d".to_string() };
    let e4 = Errors::InvalidDropletFormat { path: "p".to_string(), detail: "d".to_string() };
    assert_eq!(e1.message(), "Invalid path to project configuration");
    assert_eq!(e2.message(), "Invalid project configuration file");
    assert_eq!(e3.message(), "Invalid path to droplet");
    assert_eq!(e4.message(), "Invalid droplet format");
}
