use rustpress::landmarks::extract;
use rustpress::parity::{Feature, Link, NavItem, SidebarEntry};

const UPSTREAM_DOC: &str = r##"<!DOCTYPE html>
<html lang="en-US"><head><title>What is VitePress? | VitePress</title></head>
<body><div id="app">
<header class="VPNav"><div class="VPNavBar">
  <div class="title"><a class="title" href="/"><img class="VPImage logo" src="/vitepress-logo-mini.svg" alt=""><span>VitePress</span></a></div>
  <div class="VPNavBarSearch"><button id="local-search">Search</button></div>
  <nav aria-label="Main Navigation" class="VPNavBarMenu"><span id="main-nav-aria-label" class="visually-hidden">Main Navigation</span>
    <ul>
      <li><a class="VPLink link" href="/guide/what-is-vitepress"><span>Guide</span></a></li>
      <li><a class="VPLink link" href="/reference/site-config"><span>Reference</span></a></li>
      <li><div class="VPFlyout"><button type="button" class="button"><span class="text"><span>2.0.0-alpha.20</span></span></button>
        <div class="menu"><a class="VPLink link" href="https://github.com/vuejs/vitepress/blob/main/CHANGELOG.md">Changelog</a></div></div></li>
    </ul>
  </nav>
</div></header>
<aside class="VPSidebar"><nav class="nav" id="VPSidebarNav">
  <div class="group"><section class="VPSidebarItem level-0"><div class="item"><h2 class="text">Introduction</h2></div>
    <div class="items"><div class="VPSidebarItem level-1"><div class="item"><a class="VPLink link" href="/guide/what-is-vitepress"><p class="text">What is VitePress?</p></a></div></div></div>
  </section></div>
</nav></aside>
<div class="VPDoc"><div class="aside"><nav aria-labelledby="doc-outline-aria-label" class="VPDocAsideOutline">
  <div class="content"><div class="outline-title" id="doc-outline-aria-label" role="heading">On this page</div><ul class="VPDocOutlineItem root"></ul></div>
</nav></div>
<main class="main"><div class="vp-doc"><div>
  <h1 id="what-is-vitepress" tabindex="-1">What is VitePress? <a class="header-anchor" href="#what-is-vitepress">&#8203;</a></h1>
  <p>VitePress is a Static Site Generator.</p>
  <h2 id="highlights">Highlights</h2><ul><li>Docs</li></ul><pre><code>x</code></pre>
</div></div></main>
<footer class="VPDocFooter">
  <div class="edit-info"><div class="edit-link"><a class="VPLink link edit-link-button" href="https://github.com/vuejs/vitepress/edit/main/docs/en/guide/what-is-vitepress.md">Edit this page on GitHub</a></div>
  <div class="last-updated"><p class="VPLastUpdated">Last updated: <time datetime="2026-07-25T10:00:00.000Z">7/25/26</time></p></div></div>
  <nav class="prev-next"><div class="pager"></div><div class="pager"><a class="VPLink link pager-link next" href="/guide/getting-started"><span class="desc">Next page</span><span class="title">Getting Started</span></a></div></nav>
</footer>
</div>
<footer class="VPFooter"><div class="container"><p class="message">Released under the MIT License.</p><p class="copyright">Copyright 2019-present Evan You</p></div></footer>
</div></body></html>"##;

const LOCAL_DOC: &str = r##"<!DOCTYPE html>
<html><head><title>What is VitePress? | VitePress</title></head>
<body>
<header><div class="title"><a href="/">VitePress</a></div>
  <button id="VPSearchButton">Search</button>
  <nav aria-label="Main Navigation"><ul>
    <li><a href="/guide/what-is-vitepress/">Guide</a></li>
    <li><a href="/reference/site-config/">Reference</a></li>
  </ul></nav>
</header>
<aside class="VPSidebar"><nav>
  <ul><li><div class="item"><span class="text">Introduction</span></div>
    <ul><li><a href="/guide/what-is-vitepress/">What is VitePress?</a></li>
        <li><a href="#on-this-page">Skip</a></li></ul></li></ul>
</nav></aside>
<div class="local-nav"><a class="outline-link" href="#highlights">Highlights</a></div>
<nav class="VPDocAsideOutline"><div class="outline-title">On this page</div>
  <ul><li><a class="outline-link" href="#highlights">Highlights</a></li>
      <li><a class="outline-link" href="#developer-experience">Developer Experience</a></li></ul>
</nav>
<main><div class="vp-doc"><h1 id="what-is-vitepress">What is VitePress?</h1></div></main>
</body></html>"##;

const UPSTREAM_HOME: &str = r##"<!DOCTYPE html>
<html><head><title>VitePress</title></head><body>
<div class="VPHero"><div class="main">
  <h1 class="heading"><span class="name clip">VitePress</span><span class="text">Vite &amp; Vue Powered Static Site Generator</span></h1>
  <p class="tagline">Markdown to beautiful docs in minutes</p>
  <div class="actions"><div class="action"><a class="VPButton brand" href="/guide/what-is-vitepress">What is VitePress?</a></div>
    <div class="action"><a class="VPButton alt" href="/guide/getting-started">Quickstart</a></div></div>
</div></div>
<div class="VPFeatures"><div class="items">
  <div class="VPFeature"><article class="box"><h2 class="title">Focus on Your Content</h2><p class="details">Markdown.</p></article></div>
  <div class="VPFeature"><article class="box"><h2 class="title">Enjoy the Vite DX</h2><p class="details">Instant server start.</p></article></div>
  <div class="VPFeature"><article class="box"><h2 class="title">Customize with Vue</h2><p class="details">Use Vue syntax.</p></article></div>
  <div class="VPFeature"><article class="box"><h2 class="title">Ship Fast Sites</h2><p class="details">Fast initial load.</p></article></div>
</div></div>
</body></html>"##;

const LOCAL_HOME: &str = r##"<!DOCTYPE html>
<html><head><title>VitePress</title></head><body>
<section>
  <h1 class="heading"><span>VitePress</span><span>Vite &amp; Vue Powered Static Site Generator</span></h1>
  <p>Markdown to beautiful docs in minutes</p>
  <div><a href="./guide/what-is-vitepress">What is VitePress?</a><a href="./guide/what-is-vitepress/">Again</a><a href="./guide/getting-started">Quickstart</a></div>
</section>
<ul>
  <li><div><article><h2>Focus on Your Content</h2><p>Markdown.</p></article></div></li>
  <li><div><article><h2>Enjoy the Vite DX</h2><p>Instant server start.</p></article></div></li>
  <li><div><article><h2>Customize with Vue</h2><p>Use Vue syntax.</p></article></div></li>
  <li><div><article><h2>Ship Fast Sites</h2><p>Fast initial load.</p></article></div></li>
  <li><div><article><h2>Ship Fast Sites</h2><p>Said twice.</p></article></div></li>
</ul>
</body></html>"##;

#[test]
fn upstream_landmarks_extract() {
    let fp = extract(UPSTREAM_DOC, "/guide/what-is-vitepress");
    assert_eq!(fp.title.as_deref(), Some("What is VitePress? | VitePress"));
    assert_eq!(fp.h1.as_ref().unwrap().id.as_deref(), Some("what-is-vitepress"));
    assert_eq!(fp.nav_title.as_ref().unwrap().logo_src.as_deref(), Some("/vitepress-logo-mini.svg"));
    // nav: two links + the version flyout
    assert_eq!(fp.nav_items.len(), 3);
    assert!(matches!(&fp.nav_items[0], NavItem::Link { text, .. } if text == "Guide"));
    match &fp.nav_items[2] {
        NavItem::Group { text, items } => {
            assert_eq!(text, "2.0.0-alpha.20");
            assert_eq!(items.len(), 1);
        }
        other => panic!("expected a group, got {other:?}"),
    }
    // sidebar groups are headers in document order
    assert_eq!(fp.sidebar[0].kind, "group");
    assert_eq!(fp.sidebar[0].text, "Introduction");
    // the outline shell is there, its items are not: present-but-empty
    assert_eq!(fp.outline_title.as_deref(), Some("On this page"));
    assert_eq!(fp.outline_items, Some(Vec::new()));
    assert_eq!(fp.pager[0].desc, "Next page");
    assert_eq!(fp.pager[0].title, "Getting Started");
    assert!(fp.edit_link.as_deref().unwrap().ends_with("docs/en/guide/what-is-vitepress.md"));
    assert_eq!(fp.last_updated.as_deref(), Some("2026-07-25"));
    assert_eq!(fp.site_footer.as_ref().unwrap()[0], "Released under the MIT License.");
    assert!(fp.has_search);
    assert!(fp.block_counts.is_some());
}

#[test]
fn local_landmarks_extract() {
    let fp = extract(LOCAL_DOC, "/guide/what-is-vitepress");
    assert_eq!(fp.title.as_deref(), Some("What is VitePress? | VitePress"));
    assert_eq!(fp.h1.as_ref().unwrap().id.as_deref(), Some("what-is-vitepress"));
    // the outline is read inside its container only: the local-nav copy
    // does not double it
    let items = fp.outline_items.as_ref().unwrap();
    assert!(!items.is_empty());
    let mut hrefs: Vec<&str> = items.iter().map(|l| l.href.as_str()).collect();
    let n = hrefs.len();
    hrefs.sort();
    hrefs.dedup();
    assert_eq!(hrefs.len(), n, "outline items must be deduplicated");
    assert_eq!(fp.sidebar[0].kind, "group");
    assert_eq!(fp.sidebar[0].text, "Introduction");
    // hrefs are normalized to the upstream clean-URL shape
    assert!(matches!(&fp.nav_items[0], NavItem::Link { href, .. } if href == "/guide/what-is-vitepress"));
}

#[test]
fn home_hero_and_features_extract() {
    for fixture in [UPSTREAM_HOME, LOCAL_HOME] {
        let fp = extract(fixture, "/");
        let hero = fp.hero.as_ref().unwrap();
        assert_eq!(hero.lines[0], "VitePress");
        assert_eq!(hero.tagline.as_deref(), Some("Markdown to beautiful docs in minutes"));
        // `./guide/x` resolves to the same normalized href on both sides
        assert_eq!(hero.actions[0].href, "/guide/what-is-vitepress");
        assert!(fp.features.as_ref().unwrap().len() >= 4);
        // home has no <main> on either side: block counts stay null
        assert!(fp.block_counts.is_none());
    }
}

#[test]
fn extraction_is_deterministic() {
    let a = extract(UPSTREAM_DOC, "/guide/what-is-vitepress");
    let b = extract(UPSTREAM_DOC, "/guide/what-is-vitepress");
    assert_eq!(a, b);
}

#[test]
fn sidebar_entries_carry_depth_and_skip_anchors() {
    let fp = extract(LOCAL_DOC, "/guide/what-is-vitepress");
    assert_eq!(
        fp.sidebar,
        vec![
            SidebarEntry { kind: "group".into(), text: "Introduction".into(), href: None, depth: None },
            SidebarEntry {
                kind: "link".into(),
                text: "What is VitePress?".into(),
                href: Some("/guide/what-is-vitepress".into()),
                depth: Some(2),
            },
        ]
    );
}

#[test]
fn hero_actions_drop_repeated_targets_and_features_repeated_titles() {
    let fp = extract(LOCAL_HOME, "/");
    let hero = fp.hero.unwrap();
    assert_eq!(
        hero.actions,
        vec![
            Link { text: "What is VitePress?".into(), href: "/guide/what-is-vitepress".into() },
            Link { text: "Quickstart".into(), href: "/guide/getting-started".into() },
        ]
    );
    let features = fp.features.unwrap();
    assert_eq!(features.len(), 4);
    assert_eq!(features[3], Feature { title: "Ship Fast Sites".into(), details: "Fast initial load.".into() });
}

#[test]
fn block_counts_come_in_tag_order() {
    let fp = extract(UPSTREAM_DOC, "/guide/what-is-vitepress");
    let counts = fp.block_counts.unwrap();
    let tags: Vec<&str> = counts.iter().map(|(t, _)| t.as_str()).collect();
    assert_eq!(tags, vec!["blockquote", "h2", "h3", "h4", "h5", "h6", "ol", "pre", "table", "ul"]);
    assert_eq!(counts[1], ("h2".to_string(), 1));
    assert_eq!(counts[7], ("pre".to_string(), 1));
    assert_eq!(counts[9], ("ul".to_string(), 1));
}

#[test]
fn empty_page_has_no_landmarks() {
    let fp = extract("", "/");
    assert_eq!(fp.title, None);
    assert!(fp.nav_items.is_empty() && fp.sidebar.is_empty() && fp.pager.is_empty());
    assert_eq!(fp.outline_items, None);
    assert!(!fp.has_main && !fp.has_search);
}
