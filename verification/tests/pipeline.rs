use spindrift::context::ContextValue;
use spindrift::droplet::{Droplet, DropletMeta};
use spindrift::errors::{Errors, RenderError};
use spindrift::pipeline::{Pipeline, ScanDecision};
use spindrift::spindrift::{Spindrift, SpindriftBuildOptions, SpindriftConfig};

fn post(title: &str) -> Droplet {
    Droplet {
        meta: DropletMeta {
            tags: None,
            author: "someone".to_string(),
            date: None,
            path: None,
        },
        title: title.to_string(),
        image: None,
        content: Some("text".to_string()),
    }
}

fn parse_error() -> Errors {
    Errors::InvalidDropletFormat {
        path: "bad.yaml".to_string(),
        detail: "missing title".to_string(),
    }
}

fn config() -> SpindriftConfig {
    SpindriftConfig {
        author: Some("someone".to_string()),
        copyright: None,
        description: Some("a site".to_string()),
        project_name: "site".to_string(),
        base_path: "https://example.test/".to_string(),
        build_options: SpindriftBuildOptions {
            build_posts_by_author: SpindriftBuildOptions::default_posts_by_author(),
            build_posts_by_tag: SpindriftBuildOptions::default_posts_by_tag(),
        },
    }
}

#[test]
fn scan_decisions_follow_kind_and_extension() {
    let mut p = Pipeline::new();
    assert_eq!(p.scan_entry(true, true), ScanDecision::Skip);
    assert_eq!(p.scan_entry(true, false), ScanDecision::Skip);
    assert_eq!(p.scan_entry(false, false), ScanDecision::Ignore);
    assert_eq!(p.scan_entry(false, true), ScanDecision::Dispatch);
    assert_eq!(p.found, 1);
    assert_eq!(p.ignored, 1);
}

#[test]
fn counts_match_outcomes_regardless_of_arrival_order() {
    // Three well-formed posts and two malformed files, with outcomes
    // arriving in a scrambled order.
    let mut p = Pipeline::new();
    for _ in 0..5 {
        assert_eq!(p.scan_entry(false, true), ScanDecision::Dispatch);
    }
    let arrivals: Vec<Result<Droplet, Errors>> = vec![
        Err(parse_error()),
        Ok(post("B")),
        Ok(post("C")),
        Err(parse_error()),
        Ok(post("A")),
    ];
    let mut requests = Vec::new();
    for r in arrivals {
        if let Some(d) = p.on_parse_result(r) {
            requests.push(d);
        }
    }
    assert_eq!(requests.len(), 3);
    // Render outcomes arrive in yet another order; all succeed.
    requests.reverse();
    for d in requests {
        p.on_render_result(Ok(d));
    }
    let s = p.summary();
    assert_eq!(s.succeeded, 3);
    assert_eq!(s.failed, 2);
    assert_eq!(s.ignored, 0);
    assert_eq!(s.total_scanned, 5);
}

#[test]
fn render_failures_are_counted_not_fatal() {
    let mut p = Pipeline::new();
    for _ in 0..2 {
        p.scan_entry(false, true);
    }
    let a = p.on_parse_result(Ok(post("A"))).unwrap();
    let b = p.on_parse_result(Ok(post("B"))).unwrap();
    p.on_render_result(Ok(a));
    drop(b);
    p.on_render_result(Err(RenderError { detail: "template rejected".to_string() }));
    let s = p.summary();
    assert_eq!(s.succeeded, 1);
    assert_eq!(s.failed, 1);
    assert_eq!(s.total_scanned, 2);
}

#[test]
fn end_to_end_counts_and_index() {
    // A source directory with two valid posts, one malformed post and
    // one file with an unsupported extension.
    let mut p = Pipeline::new();
    assert_eq!(p.scan_entry(false, true), ScanDecision::Dispatch);
    assert_eq!(p.scan_entry(false, true), ScanDecision::Dispatch);
    assert_eq!(p.scan_entry(false, true), ScanDecision::Dispatch);
    assert_eq!(p.scan_entry(false, false), ScanDecision::Ignore);

    let mut requests = Vec::new();
    for r in [
        Ok(post("First Post")),
        Err(parse_error()),
        Ok(post("Second Post")),
    ] {
        if let Some(d) = p.on_parse_result(r) {
            requests.push(d);
        }
    }
    for d in requests {
        p.on_render_result(Ok(d));
    }

    let s = p.summary();
    assert_eq!(s.ignored, 1);
    assert_eq!(s.failed, 1);
    assert_eq!(s.succeeded, 2);
    assert_eq!(s.total_scanned, 4);

    let rendered = p.into_rendered();
    assert_eq!(rendered.len(), 2);
    for d in &rendered {
        assert!(d.meta.path.is_some());
    }
    assert_eq!(rendered[0].meta.path, Some("first-post.html".to_string()));

    let site = match Spindrift::new(config()) {
        Ok(site) => site,
        Err(_) => panic!("configuration wrapping never fails"),
    };
    let ctx = site.as_context(rendered);
    assert_eq!(ctx.entries[0].key, "droplets");
    match &ctx.entries[0].value {
        ContextValue::Posts(posts) => assert_eq!(posts.len(), 2),
        _ => panic!("droplets entry should be the post list"),
    }
    let keys: Vec<&str> = ctx.entries.iter().map(|e| e.key.as_str()).collect();
    assert_eq!(
        keys,
        vec!["droplets", "description", "author", "project_name", "base_path"]
    );
}

#[test]
fn index_context_omits_absent_config_fields() {
    let mut c = config();
    c.description = None;
    c.author = None;
    let site = match Spindrift::new(c) {
        Ok(site) => site,
        Err(_) => panic!("configuration wrapping never fails"),
    };
    let ctx = site.as_context(Vec::new());
    let keys: Vec<&str> = ctx.entries.iter().map(|e| e.key.as_str()).collect();
    assert_eq!(keys, vec!["droplets", "project_name", "base_path"]);
}

#[test]
fn build_option_defaults() {
    assert!(!SpindriftBuildOptions::default_posts_by_author());
    assert!(SpindriftBuildOptions::default_posts_by_tag());
    let d = SpindriftBuildOptions::default();
    assert!(!d.build_posts_by_author);
    assert!(d.build_posts_by_tag);
}
