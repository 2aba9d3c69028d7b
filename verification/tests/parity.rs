use rustpress::parity::{
    check_page, compare, diff, json_eq, norm_href, norm_text, parse_pages, resolve_href, site_file_for,
    slug_for, Baseline, Delta, Deltas, Json, Mismatch, Mode,
};

fn s(v: &str) -> Json {
    Json::Str(v.to_string())
}

fn obj(entries: Vec<(&str, Json)>) -> Json {
    let mut es: Vec<(String, Json)> = entries.into_iter().map(|(k, v)| (k.to_string(), v)).collect();
    es.sort_by(|a, b| a.0.cmp(&b.0));
    Json::Object(es)
}

fn pager(desc: &str, title: &str, href: &str) -> Json {
    obj(vec![("pager", Json::Array(vec![obj(vec![("desc", s(desc)), ("title", s(title)), ("href", s(href))])]))])
}

fn remaining<'a>(out: &'a [Mismatch], deltas: &Deltas) -> Vec<&'a Mismatch> {
    out.iter().filter(|m| !deltas.covers(&m.page, &m.path, &m.upstream, &m.ours)).collect()
}


#[test]
fn site_file_and_slug_mapping() {
    assert_eq!(slug_for("/"), "home");
    assert_eq!(slug_for("/guide/markdown"), "guide_markdown");
    assert_eq!(site_file_for("demo/public", "/guide/markdown"), "demo/public/guide/markdown/index.html");
    assert_eq!(site_file_for("demo/public", "/"), "demo/public/index.html");
}

#[test]
fn text_and_href_normalization() {
    assert_eq!(norm_text("  a\u{200b}b \n\t c  "), "ab c");
    assert_eq!(norm_href(" ./guide/x/ "), "guide/x");
    assert_eq!(norm_href("/"), "/");
    assert_eq!(norm_href("/guide/x//"), "/guide/x");
    assert_eq!(resolve_href("./guide/x/", "/"), "/guide/x");
    assert_eq!(resolve_href("./y", "/guide/page/"), "/guide/page/y");
    assert_eq!(resolve_href("/abs/", "/guide/"), "/abs");
}

#[test]
fn page_lists_skip_blanks_and_comments() {
    assert_eq!(parse_pages("/\n  # comment\n\n /guide/x \r\n"), vec!["/".to_string(), "/guide/x".to_string()]);
}

#[test]
fn check_skips_null_upstream_and_presence_only_fields() {
    // last_updated values are site-local by nature: presence-only
    let up = obj(vec![("last_updated", s("2020-01-01")), ("title", s("x"))]);
    let ours = obj(vec![("last_updated", s("2026-09-09")), ("title", s("x"))]);
    let mut out = Vec::new();
    compare("/p", &up, &ours, Mode::Check, &mut out);
    assert!(out.is_empty());
    // but a missing timestamp on our side IS a divergence
    let ours = obj(vec![("last_updated", Json::Null), ("title", s("x"))]);
    let mut out = Vec::new();
    compare("/p", &up, &ours, Mode::Check, &mut out);
    assert_eq!(out.len(), 1);
    assert_eq!(out[0].path, "last_updated");
}

#[test]
fn known_deltas_cover_mismatches() {
    let up = pager("Next page", "Deploy", "/guide/deploy");
    let ours = pager("Next page", "Deploy Your VitePress Site", "/guide/deploy");
    let mut out = Vec::new();
    compare("/guide/deploy", &up, &ours, Mode::Check, &mut out);
    assert_eq!(out.len(), 1);

    let deltas = Deltas {
        deltas: vec![Delta {
            page: "/guide/deploy".to_string(),
            path: "pager[0].title".to_string(),
            upstream: Some(s("Deploy")),
            ours: None,
            reason: "demo intentionally renames this page".to_string(),
        }],
    };
    assert!(remaining(&out, &deltas).is_empty());

    // a delta with non-matching upstream value does not cover it
    let deltas = Deltas {
        deltas: vec![Delta {
            page: "/guide/deploy".to_string(),
            path: "pager[0].title".to_string(),
            upstream: Some(s("Other")),
            ours: None,
            reason: "nope".to_string(),
        }],
    };
    assert_eq!(remaining(&out, &deltas).len(), 1);
}

#[test]
fn diff_mode_reports_upstream_changes() {
    let old = pager("Next page", "Getting Started", "/x");
    let new = pager("Next page", "Quickstart", "/y");
    let mut out = Vec::new();
    compare("/guide/a", &old, &new, Mode::Diff, &mut out);
    let paths: Vec<_> = out.iter().map(|m| m.path.as_str()).collect();
    assert!(paths.contains(&"pager[0].title"));
    assert!(paths.contains(&"pager[0].href"));
}

#[test]
fn identical_fingerprints_compare_clean() {
    let fp = obj(vec![
        ("title", s("T")),
        ("nav_items", Json::Array(vec![obj(vec![("text", s("Guide")), ("href", s("/guide"))])])),
        ("has_search", Json::Bool(true)),
        ("outline_items", Json::Array(vec![])),
    ]);
    for mode in [Mode::Check, Mode::Diff] {
        let mut out = Vec::new();
        compare("/p", &fp, &fp, mode, &mut out);
        assert!(out.is_empty());
    }
}

#[test]
fn check_skips_empty_upstream_outline_but_diff_reports_it() {
    let up = obj(vec![("outline_items", Json::Array(vec![]))]);
    let ours = obj(vec![("outline_items", Json::Array(vec![s("a"), s("b")]))]);
    let mut out = Vec::new();
    compare("/p", &up, &ours, Mode::Check, &mut out);
    assert!(out.is_empty());
    let mut out = Vec::new();
    compare("/p", &up, &ours, Mode::Diff, &mut out);
    assert_eq!(out.len(), 1);
    assert_eq!(out[0].path, "outline_items[]");
    assert!(json_eq(&out[0].upstream, &s("0 items")));
    assert!(json_eq(&out[0].ours, &s("2 items")));
}

#[test]
fn diff_reports_keys_only_one_side_has() {
    let old = obj(vec![("a", s("1")), ("b", s("2"))]);
    let new = obj(vec![("b", s("2")), ("c", s("3"))]);
    let mut out = Vec::new();
    compare("/p", &old, &new, Mode::Diff, &mut out);
    let paths: Vec<_> = out.iter().map(|m| m.path.as_str()).collect();
    assert_eq!(paths, vec!["a (removed upstream)", "c (added by us)"]);
    let mut out = Vec::new();
    compare("/p", &old, &new, Mode::Check, &mut out);
    assert!(out.is_empty());
}

#[test]
fn check_page_drops_explained_divergences() {
    let up = obj(vec![("title", s("A")), ("h1", s("B"))]);
    let ours = obj(vec![("title", s("A2")), ("h1", s("B2"))]);
    let deltas = Deltas {
        deltas: vec![Delta {
            page: "/p".to_string(),
            path: "title".to_string(),
            upstream: None,
            ours: Some(s("A2")),
            reason: "renamed".to_string(),
        }],
    };
    let left = check_page("/p", &up, &ours, &deltas);
    assert_eq!(left.len(), 1);
    assert_eq!(left[0].path, "h1");
    assert_eq!(left[0].page, "/p");
}

#[test]
fn snapshot_diff_reports_pages_added_and_removed() {
    let old = Baseline {
        meta: vec![],
        pages: vec![("/a".to_string(), obj(vec![("title", s("A"))])), ("/b".to_string(), obj(vec![]))],
    };
    let new = Baseline {
        meta: vec![],
        pages: vec![("/a".to_string(), obj(vec![("title", s("A!"))])), ("/c".to_string(), obj(vec![]))],
    };
    let out = diff(&old, &new);
    let rows: Vec<(String, String)> = out.iter().map(|m| (m.page.clone(), m.path.clone())).collect();
    assert_eq!(
        rows,
        vec![
            ("/a".to_string(), "title".to_string()),
            ("/b".to_string(), "page".to_string()),
            ("/c".to_string(), "page".to_string()),
        ]
    );
    assert!(json_eq(&out[1].ours, &s("removed")));
    assert!(json_eq(&out[2].upstream, &s("absent")));
}

#[test]
fn diffing_a_snapshot_with_itself_reports_nothing() {
    let page = Json::Object(vec![
        ("has_main".into(), Json::Bool(true)),
        ("sidebar".into(), Json::Array(vec![Json::Number("1".into()), Json::Null])),
        ("title".into(), Json::Str("Home".into())),
    ]);
    let b = Baseline { meta: vec![], pages: vec![("/".into(), page), ("/guide".into(), Json::Null)] };
    assert!(diff(&b, &b).is_empty());
}
