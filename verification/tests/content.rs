use std::cmp::Ordering;

use rustpress::content::{
    build_page, extract_h1, glob_match, is_excluded, natural_cmp, page_title, page_url, split_front_matter,
    Content, ContentError, Page, PageFrontMatter,
};

fn page(url: &str, rel: &str, title: &str) -> Page {
    Page {
        rel: rel.into(),
        url: url.into(),
        title: title.into(),
        front: PageFrontMatter::default(),
        body: String::new(),
        modified: None,
        src: rel.into(),
        locale: "root".into(),
    }
}

#[test]
fn front_matter_split_basic() {
    let raw = "---\ndescription: hi\n---\n\n# T\n";
    let (yaml, body) = split_front_matter(raw);
    assert_eq!(yaml.as_deref(), Some("description: hi"));
    assert!(body.starts_with("\n# T"));
}

#[test]
fn front_matter_split_absent_and_unterminated() {
    assert_eq!(split_front_matter("# No FM\n"), (None, "# No FM\n".to_string()));
    assert_eq!(split_front_matter("---\nx: 1\n"), (None, "---\nx: 1\n".to_string()));
}

#[test]
fn url_mapping() {
    assert_eq!(page_url("index.md"), "/");
    assert_eq!(page_url("guide/index.md"), "/guide/");
    assert_eq!(page_url("guide/x.md"), "/guide/x/");
    assert_eq!(page_url("reference/default-theme/config.md"), "/reference/default-theme/config/");
}

#[test]
fn h1_extraction() {
    assert_eq!(extract_h1("# Plain\n"), Some("Plain".into()));
    assert_eq!(extract_h1("## Not H1\n\n# Real\n"), Some("Real".into()));
    // fence first: no title
    assert_eq!(extract_h1("```md\n# In fence\n```\n# After\n"), None);
    // badge + heading attrs stripped
    assert_eq!(
        extract_h1("# MPA Mode <Badge type=\"warning\" text=\"experimental\" />\n"),
        Some("MPA Mode".into())
    );
    assert_eq!(extract_h1("# Anchored {#custom-id}\n"), Some("Anchored".into()));
    assert_eq!(extract_h1("no heading here\n"), None);
}

#[test]
fn natural_order() {
    let mut v = vec!["a10", "a2", "B1", "a1b"];
    v.sort_by(|a, b| natural_cmp(a, b));
    assert_eq!(v, vec!["a1b", "a2", "a10", "B1"]);
}

#[test]
fn natural_cmp_is_antisymmetric_and_reflexive_on_samples() {
    let samples = ["", "a", "a1", "a01", "a10", "A2", "b", "x9y", "x10y", "10", "9"];
    for a in samples {
        assert_eq!(natural_cmp(a, a), Ordering::Equal);
        for b in samples {
            assert_eq!(natural_cmp(b, a), natural_cmp(a, b).reverse());
        }
    }
}

#[test]
fn glob_patterns() {
    assert!(glob_match("drafts/*.md", "drafts/x.md"));
    assert!(!glob_match("drafts/*.md", "drafts/sub/x.md"));
    assert!(glob_match("**/secret.md", "a/b/secret.md"));
    assert!(glob_match("README.md", "README.md"));
    assert!(!glob_match("README.md", "x/README.md"));
    let pats = vec!["drafts/**".to_string(), "*.tmp.md".to_string()];
    assert!(is_excluded(&pats, "drafts/a/b.md"));
    assert!(is_excluded(&pats, "x.tmp.md"));
    assert!(!is_excluded(&pats, "guide/x.md"));
}

#[test]
fn titles_fall_back_from_front_matter_to_h1_to_stem() {
    assert_eq!(page_title(&Some("FM".into()), "# H\n", "guide/x.md"), "FM");
    assert_eq!(page_title(&None, "# H\n", "guide/x.md"), "H");
    assert_eq!(page_title(&None, "text\n", "guide/getting-started.md"), "getting-started");
    assert_eq!(page_title(&None, "text\n", "guide/index.md"), "guide");
    assert_eq!(page_title(&None, "text\n", "index.md"), "");
}

#[test]
fn build_page_derives_url_and_title() {
    let p = build_page("guide/x.md", PageFrontMatter::default(), "# X Title\nbody\n", Some(7), "src".into());
    assert_eq!(p.url, "/guide/x/");
    assert_eq!(p.title, "X Title");
    assert_eq!(p.locale, "root");
    assert_eq!(p.modified, Some(7));
    assert!(!p.is_home());
}

#[test]
fn load_sorts_by_natural_url_order() {
    let pages = vec![
        page("/guide/a10/", "guide/a10.md", "A10"),
        page("/guide/a2/", "guide/a2.md", "A2"),
        page("/", "index.md", "Home"),
    ];
    let c = Content::load(pages).unwrap();
    let urls: Vec<&str> = c.pages.iter().map(|p| p.url.as_str()).collect();
    assert_eq!(urls, vec!["/", "/guide/a2/", "/guide/a10/"]);
    assert_eq!(c.get("/guide/a2/").unwrap().title, "A2");
    assert!(c.get("/missing/").is_none());
}

#[test]
fn load_refuses_duplicate_urls() {
    let pages = vec![
        page("/guide/", "guide/index.md", "G"),
        page("/x/", "x.md", "X"),
        page("/guide/", "guide.md", "G2"),
    ];
    match Content::load(pages) {
        Err(ContentError::Duplicate { url }) => assert_eq!(url, "/guide/"),
        other => panic!("expected a duplicate error, got {other:?}"),
    }
}

#[test]
fn page_indexes_by_url_and_by_source_path() {
    let c = Content::load(vec![page("/b/", "b.md", "B"), page("/a/", "a.md", "A"), page("/", "index.md", "Home")]).unwrap();
    assert_eq!(c.by_url("/"), Some(0));
    assert_eq!(c.by_url("/a/"), Some(1));
    assert_eq!(c.by_url("/b/"), Some(2));
    assert_eq!(c.by_url("/c/"), None);
    assert_eq!(c.by_rel("a.md"), Some(1));
    assert_eq!(c.by_rel("index.md"), Some(0));
    assert_eq!(c.by_rel("a"), None);
    for (i, p) in c.pages.iter().enumerate() {
        assert_eq!(c.by_url(&p.url), Some(i));
    }
}

#[test]
fn natural_cmp_digit_runs_and_case() {
    assert_eq!(natural_cmp("a2", "a10"), Ordering::Less);
    assert_eq!(natural_cmp("a1", "a01"), Ordering::Less);
    assert_eq!(natural_cmp("Abc", "abc"), Ordering::Equal);
    assert_eq!(natural_cmp("x10y", "x9y"), Ordering::Greater);
}
