use rustpress::content::{Content, Page, PageFrontMatter};
use rustpress::markdown::{heading_from, replace_toc, resolve_relative, split_heading_anchor, Heading, RenderedPage};

fn page(url: &str, rel: &str) -> Page {
    Page {
        rel: rel.into(),
        url: url.into(),
        title: String::new(),
        front: PageFrontMatter::default(),
        body: String::new(),
        modified: None,
        src: rel.into(),
        locale: "root".into(),
    }
}

#[test]
fn relative_link_resolution() {
    let mut content = Content::default();
    for (url, rel) in [("/", "index.md"), ("/guide/what/", "guide/what.md"), ("/reference/api/", "reference/api.md")] {
        content.pages.push(page(url, rel));
    }
    // sibling .md link + anchor
    assert_eq!(resolve_relative("./what.md#section", "guide/intro.md", &content), Some("/guide/what/#section".into()));
    // up-and-over
    assert_eq!(resolve_relative("../reference/api.md", "guide/intro.md", &content), Some("/reference/api/".into()));
    // directory links: "../" climbs to the root page
    assert_eq!(resolve_relative("../", "guide/intro.md", &content), Some("/".into()));
    // "./" stays in the current dir — no /guide/ page in this fixture
    assert_eq!(resolve_relative("./", "guide/what.md", &content), None);
    // unknown target untouched
    assert_eq!(resolve_relative("./missing.md", "guide/intro.md", &content), None);
    // absolute/external untouched
    assert_eq!(resolve_relative("/api/", "guide/intro.md", &content), None);
    assert_eq!(resolve_relative("https://x.y/z", "guide/intro.md", &content), None);
}

fn h(level: u8, id: &str, text: &str) -> Heading {
    Heading { level, id: id.into(), text: text.into(), rendered_id: id.into() }
}

#[test]
fn toc_placeholder_becomes_nested_list() {
    let html = "<p><!--gd-toc--></p>\n<h2 id=\"a\">A</h2>";
    let out = replace_toc(html, &vec![h(2, "a", "A"), h(3, "b", "B<"), h(2, "c", "C")]);
    assert_eq!(
        out,
        "<nav class=\"table-of-contents\"><ul><li><a href=\"#a\">A</a><ul><li><a href=\"#b\">B&lt;</a></li></ul></li><li><a href=\"#c\">C</a></li></ul></nav>\n<h2 id=\"a\">A</h2>"
    );
    assert_eq!(replace_toc("<p>no toc</p>", &vec![h(2, "a", "A")]), "<p>no toc</p>");
    assert_eq!(
        replace_toc("x<!--gd-toc-->", &vec![]),
        "x<nav class=\"table-of-contents\"><ul></ul></nav>"
    );
}

#[test]
fn custom_anchor_ids_replace_rendered_slugs() {
    assert_eq!(split_heading_anchor("Deep Dive {#dive}"), ("Deep Dive".to_string(), Some("dive".to_string())));
    assert_eq!(split_heading_anchor("Plain"), ("Plain".to_string(), None));
    let a = heading_from(2, "Deep Dive {#dive}", "deep-dive".to_string());
    assert_eq!((a.id.as_str(), a.text.as_str(), a.rendered_id.as_str()), ("dive", "Deep Dive", "deep-dive"));
    let b = heading_from(2, "Plain", "plain".to_string());
    assert_eq!((b.id.as_str(), b.text.as_str()), ("plain", "Plain"));
    let html = "<h2 id=\"deep-dive\">Deep Dive {#dive}<a href=\"#deep-dive\" class=\"anchor\"></a></h2>\n<p>text</p>\n<h2 id=\"plain\">Plain<a href=\"#plain\" class=\"anchor\"></a></h2>\n";
    let out = RenderedPage::finish(html, vec![a, b], false, false);
    assert!(out.html.contains("<h2 id=\"dive\">Deep Dive<a href=\"#dive\""), "{}", out.html);
    assert!(out.html.contains("<h2 id=\"plain\">Plain<a href=\"#plain\""));
    assert!(!out.html.contains("{#dive}") && !out.html.contains("deep-dive"));
    assert_eq!(out.headings[0].id, "dive");
    assert!(!out.has_math);
}

#[test]
fn finishing_expands_toc_lazy_images_and_math() {
    let hs = vec![heading_from(2, "One", "one".to_string()), heading_from(3, "Deep", "deep".to_string())];
    let html = "<p><!--gd-toc--></p>\n<p><img src=\"a.png\"></p>\n<p><span data-math-style=\"inline\">a^2</span> <span data-math-style=\"display\">b_c</span></p>\n";
    let out = RenderedPage::finish(html, hs, true, true);
    assert!(out.html.contains("<nav class=\"table-of-contents\"><ul><li><a href=\"#one\">One</a><ul><li><a href=\"#deep\">Deep</a></li></ul></li></ul></nav>"), "{}", out.html);
    assert!(out.html.contains("<img loading=\"lazy\" src=\"a.png\">"));
    assert!(out.has_math);
    assert!(out.html.contains(r#"<span data-math-style="inline">\(a^2\)</span>"#), "{}", out.html);
    assert!(out.html.contains(r"\[b_c\]"));
    // math disabled: flagged but untouched
    let out = RenderedPage::finish("<span data-math-style=\"inline\">x</span>", Vec::new(), false, false);
    assert!(out.has_math && !out.html.contains(r"\("));
    let out = RenderedPage::finish("just text $ not math $", Vec::new(), false, true);
    assert!(!out.has_math);
}
