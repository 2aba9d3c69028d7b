use rustpress::config::{Sidebar, SidebarItem, SidebarSection, SiteConfig};
use rustpress::content::{Content, Page, PageFrontMatter};
use rustpress::sidebar::{content_dir, ensure_slashed, normalize_dots, resolve_link, top_segment, Sidebars};

fn page(url: &str, rel: &str, title: &str) -> Page {
    Page {
        rel: rel.into(),
        url: url.into(),
        title: title.into(),
        front: PageFrontMatter::default(),
        body: String::new(),
        modified: None,
        src: rel.into(),
        locale: "root".into(),
    }
}

fn content_with(urls: &[(&str, &str, &str)]) -> Content {
    let mut c = Content::default();
    for (url, rel, title) in urls {
        c.pages.push(page(url, rel, title));
    }
    c
}

fn item(text: &str, link: Option<&str>, base: Option<&str>, items: Vec<SidebarItem>) -> SidebarItem {
    SidebarItem {
        text: text.into(),
        link: link.map(|s| s.to_string()),
        items,
        collapsed: None,
        base: base.map(|s| s.to_string()),
        doc_footer_text: None,
        target: None,
        rel: None,
    }
}

#[test]
fn resolve_link_bases() {
    let content = content_with(&[
        ("/reference/default-theme-config/", "reference/default-theme-config.md", "Config"),
        ("/guide/intro/", "guide/intro.md", "Intro"),
    ]);
    // nearest base wins (group base replaces section base, VitePress)
    assert_eq!(resolve_link("config", "/reference/default-theme-", &content), "/reference/default-theme-config/");
    // absolute internal: gains trailing slash via canonicalization
    assert_eq!(resolve_link("/guide/intro", "", &content), "/guide/intro/");
    // relative with .. navigation
    assert_eq!(resolve_link("../intro", "/guide/other/", &content), "/guide/intro/");
    // external untouched
    assert_eq!(resolve_link("https://example.com/x", "", &content), "https://example.com/x");
    // unknown internal target: pass through
    assert_eq!(resolve_link("/missing/", "", &content), "/missing/");
}

#[test]
fn auto_sidebar_groups_by_top_section() {
    let content = content_with(&[
        ("/", "index.md", "Home"),
        ("/guide/", "guide/index.md", "Guide"),
        ("/guide/b-intro/", "guide/b-intro.md", "B Intro"),
        ("/guide/a-start/", "guide/a-start.md", "A Start"),
        ("/reference/api/", "reference/api.md", "API"),
    ]);
    let sb = Sidebars::build(&SiteConfig::default(), &content);
    assert_eq!(sb.trees.len(), 2);
    let guide = sb.for_url("/guide/a-start/").unwrap();
    assert_eq!(guide.prefix, "/guide/");
    assert_eq!(guide.items.len(), 1);
    let group = &guide.items[0];
    assert_eq!(group.text, "Guide");
    assert_eq!(group.url.as_deref(), Some("/guide/"));
    // natural file order: a-start before b-intro
    assert_eq!(group.children[0].text, "A Start");
    assert_eq!(group.children[1].text, "B Intro");
    let reference = sb.for_url("/reference/api/").unwrap();
    assert_eq!(reference.prefix, "/reference/");
    // home page has no sidebar
    assert!(sb.for_url("/").is_none());
}

#[test]
fn prev_next_follow_flat_sidebar_order() {
    let content = content_with(&[
        ("/guide/", "guide/index.md", "Guide"),
        ("/guide/a/", "guide/a.md", "A"),
        ("/guide/b/", "guide/b.md", "B"),
        ("/guide/c/", "guide/c.md", "C"),
    ]);
    let sb = Sidebars::build(&SiteConfig::default(), &content);
    let e = |t: &str, u: &str| Some((t.to_string(), u.to_string()));
    assert_eq!(sb.neighbors("/guide/b/"), (e("A", "/guide/a/"), e("C", "/guide/c/")));
    assert_eq!(sb.neighbors("/guide/a/"), (e("Guide", "/guide/"), e("B", "/guide/b/")));
    assert_eq!(sb.neighbors("/guide/c/"), (e("B", "/guide/b/"), None));
}

#[test]
fn explicit_map_sidebar_longest_prefix_wins() {
    let content = content_with(&[
        ("/reference/default-theme-config/", "reference/dt-config.md", "Config"),
        ("/reference/api/", "reference/api.md", "API"),
        ("/reference/api/hooks/", "reference/api/hooks.md", "Hooks"),
    ]);
    let mut config = SiteConfig::default();
    config.sidebar = Sidebar::Sections(vec![
        (
            "/reference/".to_string(),
            SidebarSection {
                base: None,
                items: vec![item(
                    "Default Theme",
                    None,
                    Some("/reference/default-theme-"),
                    vec![item("Overview", Some("config"), None, vec![])],
                )],
            },
        ),
        (
            "/reference/api/".to_string(),
            SidebarSection { base: None, items: vec![item("Hooks", Some("/reference/api/hooks/"), None, vec![])] },
        ),
    ]);
    let sb = Sidebars::build(&config, &content);
    let dt = sb.for_url("/reference/default-theme-config/").unwrap();
    assert_eq!(dt.prefix, "/reference/");
    assert_eq!(dt.items[0].url, None);
    assert_eq!(dt.items[0].children[0].url.as_deref(), Some("/reference/default-theme-config/"));
    let api = sb.for_url("/reference/api/hooks/").unwrap();
    assert_eq!(api.prefix, "/reference/api/");
    assert_eq!(api.items[0].url.as_deref(), Some("/reference/api/hooks/"));
}

#[test]
fn single_array_sidebar_applies_site_wide() {
    let content = content_with(&[("/a/", "a.md", "A"), ("/b/", "b.md", "B")]);
    let mut config = SiteConfig::default();
    config.sidebar = Sidebar::Items(vec![item(
        "All",
        None,
        None,
        vec![item("A", Some("/a"), None, vec![]), item("B", Some("/b/"), None, vec![])],
    )]);
    let sb = Sidebars::build(&config, &content);
    assert_eq!(sb.trees.len(), 1);
    assert_eq!(sb.trees[0].prefix, "/");
    let (prev, next) = sb.neighbors("/a/");
    assert_eq!(prev, None);
    assert_eq!(next, Some(("B".to_string(), "/b/".to_string())));
}

#[test]
fn flatten_lists_linked_entries_in_display_order() {
    let content = content_with(&[("/g/", "g/index.md", "G"), ("/g/x/", "g/x.md", "X")]);
    let sb = Sidebars::build(&SiteConfig::default(), &content);
    let flat = Sidebars::flatten(&sb.trees[0]);
    assert_eq!(flat, vec![("G".to_string(), "/g/".to_string()), ("X".to_string(), "/g/x/".to_string())]);
    assert_eq!(sb.neighbors("/nowhere/"), (None, None));
}

#[test]
fn external_sidebar_links_stay_out_of_the_pager_order() {
    let content = content_with(&[("/a/", "a.md", "A"), ("/b/", "b.md", "B")]);
    let mut config = SiteConfig::default();
    config.sidebar = Sidebar::Items(vec![
        item("A", Some("/a/"), None, vec![]),
        item("Elsewhere", Some("https://example.com/x"), None, vec![]),
        item("B", Some("/b/"), None, vec![]),
    ]);
    let sb = Sidebars::build(&config, &content);
    let flat = Sidebars::flatten(&sb.trees[0]);
    assert_eq!(flat, vec![("A".to_string(), "/a/".to_string()), ("B".to_string(), "/b/".to_string())]);
    assert_eq!(sb.neighbors("/a/").1, Some(("B".to_string(), "/b/".to_string())));
}

#[test]
fn section_without_index_page_is_an_unlinked_group() {
    let content = content_with(&[("/ref/b/", "ref/b.md", "B"), ("/ref/a10/", "ref/a10.md", "A10"), ("/ref/a2/", "ref/a2.md", "A2")]);
    let sb = Sidebars::build(&SiteConfig::default(), &content);
    let t = &sb.trees[0];
    assert_eq!(t.items[0].text, "ref");
    assert_eq!(t.items[0].url, None);
    assert_eq!(t.items[0].collapsed, Some(false));
    let order: Vec<&str> = t.items[0].children.iter().map(|n| n.text.as_str()).collect();
    assert_eq!(order, vec!["A2", "A10", "B"]);
}

#[test]
fn path_helpers() {
    assert_eq!(normalize_dots("/a/./b/../c/"), "/a/c");
    assert_eq!(normalize_dots("../../x"), "/x");
    assert_eq!(ensure_slashed("guide"), "/guide/");
    assert_eq!(ensure_slashed("/guide/"), "/guide/");
    assert_eq!(top_segment("/guide/x/"), Some("guide".to_string()));
    assert_eq!(top_segment("/"), None);
    assert_eq!(top_segment("guide"), None);
    assert_eq!(content_dir("site"), "site/content");
    assert_eq!(content_dir("site/"), "site/content");
    assert_eq!(content_dir(""), "content");
}

#[test]
fn auto_sidebar_two_trees_in_natural_order() {
    let content = Content::load(vec![
        page("/guide/what-is-vitepress/", "guide/what-is-vitepress.md", "What is VitePress?"),
        page("/reference/site-config/", "reference/site-config.md", "Site Config"),
        page("/guide/routing/", "guide/routing.md", "Routing"),
        page("/", "index.md", "VitePress"),
        page("/guide/markdown/", "guide/markdown.md", "Markdown Extensions"),
        page("/guide/getting-started/", "guide/getting-started.md", "Getting Started"),
        page("/reference/runtime-api/", "reference/runtime-api.md", "Runtime API"),
        page("/guide/asset-handling/", "guide/asset-handling.md", "Asset Handling"),
    ])
    .expect("distinct urls");
    let sb = Sidebars::build(&SiteConfig::default(), &content);
    assert_eq!(sb.trees.len(), 2);
    let guide = sb.for_url("/guide/routing/").expect("guide sidebar");
    assert_eq!(guide.prefix, "/guide/");
    let group = &guide.items[0];
    // no guide/index.md → group titled by section, no link
    assert_eq!(group.text, "guide");
    assert_eq!(group.url, None);
    let child_titles: Vec<&str> = group.children.iter().map(|c| c.text.as_str()).collect();
    assert_eq!(
        child_titles,
        vec!["Asset Handling", "Getting Started", "Markdown Extensions", "Routing", "What is VitePress?"]
    );
    let (prev, next) = sb.neighbors("/guide/getting-started/");
    assert_eq!(prev.as_ref().map(|(t, u)| (t.as_str(), u.as_str())), Some(("Asset Handling", "/guide/asset-handling/")));
    assert_eq!(next.as_ref().map(|(t, u)| (t.as_str(), u.as_str())), Some(("Markdown Extensions", "/guide/markdown/")));
}
