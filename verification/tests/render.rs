use rustpress::config::{
    AsideSetting, OutlineConfig, Appearance, HeadTag, IgnoreDeadLinks, Locale, NavItem, PagerLabel, SiteConfig, SocialIcon, TitleTemplate,
};
use rustpress::content::{Content, OutlineSetting, Page, PageFrontMatter};
use rustpress::markdown::Heading;
use rustpress::render::doc::{civil_from_days, format_date, outline_headings, outline_links, pager_label};
use rustpress::render::home::{feature_grid_class, resolve_action_link};
use rustpress::render::layout::{appearance_script, nav_item_active, opt_attrs, serialize_head_tags, social_label};
use rustpress::render::{
    apply_rewrites, aside_position, assign_locales, dead_link_report, filter_ignored, find_dead_links, normalize_rewrite_path,
    not_found_texts, outline_range, page_description, plain_text, reports_dead_links, search_title, select_theme, site_url, BuildError,
    Site, ThemeChoice,
};
use rustpress::render::sidebar::{sidebar_html, sidebar_node_html};
use rustpress::render::home_page::home_page_html;
use rustpress::render::page_shell::{layout_html, Shell};
use rustpress::render::doc_page::{doc_page_html, not_found_body, page_body_html};
use rustpress::render::navbar::{nav_screen_html, navbar_html};
use rustpress::render::local_nav::local_nav_html;
use rustpress::markdown::RenderedPage;
use rustpress::content::{Feature, FeatureIcon, Hero, HeroAction, HeroImage};
use rustpress::sidebar::{SidebarNode, Sidebars};

fn page(url: &str, rel: &str, title: &str) -> Page {
    Page {
        rel: rel.into(),
        url: url.into(),
        title: title.into(),
        front: PageFrontMatter::default(),
        body: String::new(),
        modified: None,
        src: rel.into(),
        locale: "root".into(),
    }
}

fn site_with(config: SiteConfig, pages: Vec<Page>) -> Site {
    let content = Content { pages };
    let sidebars = Sidebars::build(&config, &content);
    Site { config, content, sidebars, theme_css: None }
}

fn heading(level: u8, id: &str, text: &str) -> Heading {
    Heading { level, id: id.into(), text: text.into(), rendered_id: id.into() }
}

fn locale(label: &str, lang: Option<&str>, title: Option<&str>) -> Locale {
    Locale { label: label.into(), lang: lang.map(Into::into), title: title.map(Into::into), description: None }
}

#[test]
fn civil_dates() {
    assert_eq!(civil_from_days(0), (1970, 1, 1));
    assert_eq!(civil_from_days(19_723), (2024, 1, 1)); // 2024-01-01
    assert_eq!(civil_from_days(20_652), (2026, 7, 18));
}

#[test]
fn civil_dates_before_the_epoch_and_leap_days() {
    assert_eq!(civil_from_days(-1), (1969, 12, 31));
    assert_eq!(civil_from_days(-719_468), (0, 3, 1));
    assert_eq!(civil_from_days(11_016), (2000, 2, 29));
}

#[test]
fn timestamps_format_as_iso_date_and_medium_label() {
    let (iso, label) = format_date(1_786_639_929);
    assert_eq!(iso, "2026-08-13");
    assert_eq!(label, "Aug 13, 2026, 4:52:09 PM");
    let (iso, label) = format_date(1_704_067_507);
    assert_eq!(iso, "2024-01-01");
    assert_eq!(label, "Jan 1, 2024, 12:05:07 AM");
    let (iso, _) = format_date(0);
    assert_eq!(iso, "1970-01-01");
}

#[test]
fn outline_nests_deeper_headings() {
    let hs = vec![heading(2, "a", "A & B"), heading(3, "b", "B"), heading(2, "c", "C")];
    let html = outline_links(&hs);
    assert!(html.starts_with("<ul class=\"relative z-[1]\"><li><a class=\"outline-link"));
    assert!(html.contains("href=\"#a\" title=\"A &amp; B\">A &amp; B</a><ul class=\"pr-4 pl-4\"><li>"));
    assert!(html.contains("href=\"#b\""));
    assert!(html.ends_with(">C</a></li></ul>"));
    assert_eq!(html.matches("<ul").count(), html.matches("</ul>").count());
    assert_eq!(outline_links(&vec![]), "<ul class=\"relative z-[1]\"></ul>");
}

#[test]
fn outline_range_filters_headings() {
    let hs = vec![heading(1, "t", "T"), heading(2, "a", "A"), heading(4, "d", "D"), heading(3, "b", "B")];
    let kept: Vec<String> = outline_headings(&hs, 2, 3).into_iter().map(|h| h.id).collect();
    assert_eq!(kept, vec!["a".to_string(), "b".to_string()]);
}

#[test]
fn pager_labels_default_override_or_disable() {
    assert_eq!(pager_label(&None, "Next page"), Ok("Next page".to_string()));
    assert_eq!(pager_label(&Some(PagerLabel::Text("Onward".into())), "Next page"), Ok("Onward".to_string()));
    assert_eq!(pager_label(&Some(PagerLabel::Off(false)), "Next page"), Err(()));
}

#[test]
fn urls_get_the_base() {
    assert_eq!(site_url("/docs/", "/guide/"), "/docs/guide/");
    assert_eq!(site_url("/docs/", "/"), "/docs/");
    assert_eq!(site_url("/docs/", "syntax.css"), "/docs/syntax.css");
    assert_eq!(site_url("/", "/guide/"), "/guide/");
    assert_eq!(site_url("/docs/", "https://example.com/x"), "https://example.com/x");
    assert_eq!(site_url("/docs/", "mailto:a@b.c"), "mailto:a@b.c");
}

#[test]
fn document_titles_follow_the_template() {
    let mut config = SiteConfig::default();
    config.title = Some("Site".into());
    let p = page("/guide/", "guide/index.md", "Guide");
    let site = site_with(config, vec![p.clone()]);
    assert_eq!(site.document_title(&p, false), "Guide | Site");
    assert_eq!(site.document_title(&p, true), "Site");
    let mut config = SiteConfig::default();
    config.title = Some("Site".into());
    config.title_template = Some(TitleTemplate::Tmpl(":title — Docs".into()));
    let site = site_with(config, vec![p.clone()]);
    assert_eq!(site.document_title(&p, false), "Guide — Docs");
    let mut config = SiteConfig::default();
    config.title_template = Some(TitleTemplate::Tmpl("Docs".into()));
    let site = site_with(config, vec![p.clone()]);
    assert_eq!(site.document_title(&p, false), "Guide — Docs");
    let mut config = SiteConfig::default();
    config.title_template = Some(TitleTemplate::Off(false));
    let site = site_with(config, vec![p.clone()]);
    assert_eq!(site.document_title(&p, false), "Guide");
    // the page's own template wins over the site's
    let mut config = SiteConfig::default();
    config.title = Some("Site".into());
    config.title_template = Some(TitleTemplate::Tmpl("Docs".into()));
    let mut own = p.clone();
    own.front.title_template = Some(TitleTemplate::Tmpl(":title | Custom".into()));
    let site = site_with(config, vec![own.clone()]);
    assert_eq!(site.document_title(&own, false), "Guide | Custom");
    own.front.title_template = Some(TitleTemplate::Off(false));
    assert_eq!(site.document_title(&own, false), "Guide");
}

#[test]
fn locale_title_and_language_switcher() {
    let mut config = SiteConfig::default();
    config.title = Some("Site".into());
    config.base = "/docs/".into();
    config.locales = vec![
        ("root".into(), locale("English", Some("en-US"), None)),
        ("zh".into(), locale("简体中文", Some("zh-CN"), Some("站点"))),
    ];
    let mut zh = page("/zh/guide/", "zh/guide/index.md", "指南");
    zh.locale = "zh".into();
    let en = page("/guide/", "guide/index.md", "Guide");
    let other = page("/only-en/", "only-en.md", "Only");
    let site = site_with(config, vec![en.clone(), zh.clone(), other.clone()]);
    assert_eq!(site.locale_lang(&zh), "zh-CN");
    assert_eq!(site.document_site_title(&zh), "站点");
    assert_eq!(site.document_site_title(&en), "Site");
    assert_eq!(site.navbar_site_title(&zh), Some("站点".to_string()));
    let t = site.translations_for(&en);
    assert_eq!(
        t,
        vec![
            ("English".to_string(), "/docs/guide/".to_string(), true),
            ("简体中文".to_string(), "/docs/zh/guide/".to_string(), false),
        ]
    );
    let t = site.translations_for(&other);
    assert_eq!(t[1], ("简体中文".to_string(), "/docs/zh/".to_string(), false));
    let t = site.translations_for(&zh);
    assert_eq!(t[0], ("English".to_string(), "/docs/guide/".to_string(), false));
}

#[test]
fn single_locale_sites_have_no_switcher() {
    let site = site_with(SiteConfig::default(), vec![page("/", "index.md", "Home")]);
    assert!(site.translations_for(&site.content.pages[0]).is_empty());
}

#[test]
fn sitemap_lists_every_page_with_lastmod() {
    let mut p = page("/guide/", "guide/index.md", "Guide");
    p.modified = Some(1_786_639_929);
    let mut config = SiteConfig::default();
    config.base = "/docs/".into();
    let site = site_with(config, vec![page("/", "index.md", "Home"), p]);
    let xml = site.sitemap_xml("https://example.com/");
    assert_eq!(
        xml,
        "<?xml version=\"1.0\" encoding=\"UTF-8\"?>\n<urlset xmlns=\"http://www.sitemaps.org/schemas/sitemap/0.9\">\n  <url>\n    <loc>https://example.com/docs/</loc>\n  </url>\n  <url>\n    <loc>https://example.com/docs/guide/</loc>\n    <lastmod>2026-08-13</lastmod>\n  </url>\n</urlset>\n"
    );
}

#[test]
fn outline_range_front_matter_overrides_site() {
    let config = SiteConfig::default();
    let mut p = page("/a/", "a.md", "A");
    assert_eq!(outline_range(&config, &p), Some((2, 3)));
    p.front.outline = Some(OutlineSetting::Deep);
    assert_eq!(outline_range(&config, &p), Some((2, 6)));
    p.front.outline = Some(OutlineSetting::Level(4));
    assert_eq!(outline_range(&config, &p), Some((4, 4)));
    let mut config = SiteConfig::default();
    config.outline = OutlineConfig::Off(false);
    // the page's own setting wins over a site that disables the outline
    assert_eq!(outline_range(&config, &p), Some((4, 4)));
    p.front.outline = Some(OutlineSetting::Deep);
    assert_eq!(outline_range(&config, &p), Some((2, 6)));
    p.front.outline = None;
    assert_eq!(outline_range(&config, &p), None);
    p.front.outline = Some(OutlineSetting::Off);
    assert_eq!(outline_range(&SiteConfig::default(), &p), None);
}

#[test]
fn dead_links_are_unknown_internal_targets() {
    let site = site_with(
        SiteConfig::default(),
        vec![page("/", "index.md", "Home"), page("/guide/", "guide/index.md", "Guide"), page("/guide/x/", "guide/x.md", "X")],
    );
    let p = site.content.pages[2].clone();
    let html = r##"<a href="/guide/">ok</a><a href="/missing/#h">x</a><a href="https://e.com">e</a>
<a href="#top">t</a><img src="/logo.svg"><a href="./nope.md">n</a><a href="../guide/">up</a><a href="/missing/">again</a>"##;
    let dead = find_dead_links(html, &p, &site);
    assert_eq!(dead, vec!["/logo.svg".to_string(), "/missing".to_string(), "guide/nope.md".to_string()]);
}

#[test]
fn dead_link_prefixes_and_report() {
    let dead = vec!["/api/x".to_string(), "/guide/y".to_string()];
    let kept = filter_ignored(dead.clone(), &IgnoreDeadLinks::IgnorePrefixes(vec!["/api".into()]));
    assert_eq!(kept, vec!["/guide/y".to_string()]);
    assert_eq!(filter_ignored(dead.clone(), &IgnoreDeadLinks::Check), dead);
    assert!(reports_dead_links(&IgnoreDeadLinks::Check));
    assert!(!reports_dead_links(&IgnoreDeadLinks::IgnoreAll));
    let report = dead_link_report(&vec![("/a/".into(), "/x".into()), ("/b/".into(), "y.png".into())]);
    assert_eq!(report, "2 dead link(s) found (ignoreDeadLinks silences this):\n  /a/ → /x\n  /b/ → y.png");
}

#[test]
fn search_text_strips_tags_and_decodes_entities() {
    assert_eq!(plain_text("<h1 id=\"x\">Title</h1>\n<p>a &amp; b &lt;c&gt;</p>"), "Title a & b <c>");
    assert_eq!(plain_text("<p>x&nbsp;y &bogus; z</p>"), "x y &bogus; z");
    assert_eq!(plain_text("<a title=\"&amp;\">in</a>"), "in");
    assert_eq!(plain_text(""), "");
}

#[test]
fn rewrites_and_locales_assign_urls() {
    assert_eq!(normalize_rewrite_path("/guide/intro"), "guide/intro.md");
    assert_eq!(normalize_rewrite_path("guide/index.md"), "guide/index.md");
    let mut pages = vec![page("/packages/a/", "packages/a.md", "A"), page("/about/", "about.md", "About")];
    apply_rewrites(
        &mut pages,
        &vec![("packages/:rest*".into(), "pkg/:rest*".into()), ("about.md".into(), "/company".into())],
    );
    assert_eq!(pages[0].url, "/pkg/a/");
    assert_eq!(pages[1].url, "/company/");
    let mut pages = vec![page("/zh/x/", "zh/x.md", "X"), page("/y/", "y.md", "Y")];
    assign_locales(&mut pages, &vec![("root".into(), locale("English", None, None)), ("zh".into(), locale("中文", None, None))]);
    assert_eq!(pages[0].locale, "zh");
    assert_eq!(pages[1].locale, "root");
}

#[test]
fn theme_setting_selects_stock_file_or_palette() {
    assert!(matches!(select_theme(&None), Ok(ThemeChoice::Stock)));
    assert!(matches!(select_theme(&Some("vitepress".into())), Ok(ThemeChoice::Stock)));
    match select_theme(&Some("brand.css".into())) {
        Ok(ThemeChoice::File(f)) => assert_eq!(f, "brand.css"),
        other => panic!("unexpected {other:?}"),
    }
    match select_theme(&Some("green".into())) {
        Ok(ThemeChoice::Builtin(css)) => assert!(css.contains("--vp-c-green-1")),
        other => panic!("unexpected {other:?}"),
    }
    match select_theme(&Some("neon".into())) {
        Err(BuildError::Theme { value, available }) => {
            assert_eq!(value, "neon");
            assert!(available.starts_with("vitepress (default)"));
            assert_eq!(available, "vitepress (default), green, purple, orange, mono");
        }
        other => panic!("unexpected {other:?}"),
    }
}

#[test]
fn search_titles_and_not_found_texts() {
    let mut config = SiteConfig::default();
    config.title = Some("Site".into());
    let mut home = page("/", "index.md", "Welcome");
    home.front.layout = Some("home".into());
    assert_eq!(search_title(&config, &home), "Site");
    assert_eq!(search_title(&config, &page("/a/", "a.md", "A")), "A");
    let (t, q, l) = not_found_texts(&config);
    assert_eq!(t, "Page not found");
    assert_eq!(q, "The page you are looking for does not exist.");
    assert_eq!(l, "Return home");
}

#[test]
fn hero_actions_resolve_from_the_site_root() {
    let mut config = SiteConfig::default();
    config.base = "/docs/".into();
    let site = site_with(config, vec![]);
    assert_eq!(resolve_action_link(&site, "./guide/what-is-vitepress.md"), "/docs/guide/what-is-vitepress");
    assert_eq!(resolve_action_link(&site, "guide/../api/x"), "/docs/api/x");
    assert_eq!(resolve_action_link(&site, "/guide/"), "/docs/guide/");
    assert_eq!(resolve_action_link(&site, "https://github.com"), "https://github.com");
    assert_eq!(feature_grid_class(3), " md:w-1/3");
    assert_eq!(feature_grid_class(6), " sm:w-1/2 md:w-1/3");
    assert_eq!(feature_grid_class(4), " sm:w-1/2 lg:w-1/4");
    assert_eq!(feature_grid_class(1), "");
}

#[test]
fn action_links_name_canonical_page_urls() {
    for (base, prefix) in [("/", ""), ("/docs/", "/docs")] {
        let mut config = SiteConfig::default();
        config.base = base.into();
        let site = site_with(config, vec![page("/guide/a/", "guide/a.md", "A")]);
        for link in ["./guide/a", "guide/a", "/guide/a", "/guide/a.md", "./guide/a.md", "/guide/a/"] {
            assert_eq!(resolve_action_link(&site, link), format!("{prefix}/guide/a/"), "{link}");
        }
        assert_eq!(resolve_action_link(&site, "/guide/a#part"), format!("{prefix}/guide/a/#part"));
        assert_eq!(resolve_action_link(&site, "/pure.html"), format!("{prefix}/pure.html"));
        assert_eq!(resolve_action_link(&site, "https://example.com/x"), "https://example.com/x");
    }
}

#[test]
fn shell_text_helpers() {
    let script = appearance_script(&Appearance::ForceDark);
    assert!(script.starts_with("<script>(function () { try {\n        document.documentElement.classList.add('dark');}"));
    let tags = serialize_head_tags(&vec![
        HeadTag { tag: "meta".into(), attrs: vec![("name".into(), "x".into()), ("content".into(), "a\"b".into())], children: None },
        HeadTag { tag: "script".into(), attrs: vec![], children: None },
    ]);
    assert_eq!(tags, "<meta name=\"x\" content=\"a&quot;b\"/><script></script>");
    assert_eq!(opt_attrs(Some("_blank"), Some("a&b")), " target=\"_blank\" rel=\"a&amp;b\"");
    assert_eq!(opt_attrs(None, None), "");
    let item = NavItem { text: "Guide".into(), link: Some("/guide/".into()), active_match: None, items: vec![], target: None, rel: None };
    assert!(nav_item_active(&item, "/guide/intro/"));
    assert!(!nav_item_active(&item, "/api/"));
    let item = NavItem { active_match: Some("/reference/".into()), ..item };
    assert!(!nav_item_active(&item, "/guide/intro/"));
    assert_eq!(social_label(&SocialIcon::Name("github".into())), "github");
    assert_eq!(social_label(&SocialIcon::Svg { svg: "<svg/>".into() }), "link");
}

#[test]
fn aside_and_description_settings() {
    let mut config = SiteConfig::default();
    assert_eq!(aside_position(&config), Some(false));
    config.aside = Some(AsideSetting::Left);
    assert_eq!(aside_position(&config), Some(true));
    config.aside = Some(AsideSetting::Show(false));
    assert_eq!(aside_position(&config), None);
    config.aside = Some(AsideSetting::Show(true));
    assert_eq!(aside_position(&config), Some(false));

    let mut config = SiteConfig::default();
    config.description = Some("Site wide".into());
    let mut p = page("/a/", "a.md", "A");
    assert_eq!(page_description(&config, &p), "Site wide");
    p.front.description = Some("Own".into());
    assert_eq!(page_description(&config, &p), "Own");
}

fn snode(text: &str, url: Option<&str>, children: Vec<SidebarNode>, collapsed: Option<bool>) -> SidebarNode {
    SidebarNode { text: text.into(), url: url.map(Into::into), children, collapsed }
}

#[test]
fn sidebar_active_leaf_renders_exact_markup() {
    let mut config = SiteConfig::default();
    config.base = "/docs/".into();
    let site = site_with(config, vec![]);
    let n = snode("A & B", Some("/guide/a/"), vec![], None);
    assert_eq!(
        sidebar_node_html(&site, &n, "/guide/a/", 2),
        "<section class=\"group/side VPSidebarItem level-2 is-active\"><div class=\"group/item item relative flex w-full\"><div class=\"indicator absolute top-[0.375rem] bottom-[0.375rem] left-[calc(-1rem-1px)] w-[2px] rounded-[2px] transition-colors duration-[250ms] bg-brand-1\"></div><a class=\"link flex items-center grow group/link\" href=\"/docs/guide/a/\" aria-current=\"page\"><p class=\"text grow py-1 leading-[1.7142857] text-[0.875rem] transition-colors duration-[250ms] font-medium text-brand-1\">A &amp; B</p></a></div></section>"
    );
}

#[test]
fn sidebar_collapsed_group_has_caret_state_and_nested_children() {
    let site = site_with(SiteConfig::default(), vec![]);
    let child = snode("Intro", Some("/guide/intro/"), vec![], None);
    let n = snode("Guide", None, vec![child], Some(true));
    let html = sidebar_node_html(&site, &n, "/guide/intro/", 0);
    assert!(html.starts_with("<section class=\"group/side VPSidebarItem level-0 pb-6 [&.collapsed]:pb-2.5 collapsible\" x-data=\"{ &quot;open&quot;: false }\" :class=\"{ 'collapsed': !open }\">"));
    assert!(html.contains("<h3 class=\"text grow py-1 leading-[1.7142857] text-[0.875rem] font-bold text-text-1\">Guide</h3><button type=\"button\""));
    assert!(html.contains("<ul class=\"items group-[.collapsed]/side:hidden\"><li><div class=\"group [.group+&amp;]:border-t"));
    assert!(html.contains("<section class=\"group/side VPSidebarItem level-1 is-active\">"));
    assert!(html.ends_with("</section></div></li></ul></section>"));
    let open = snode("Guide", Some("/guide/"), vec![snode("Intro", Some("/guide/intro/"), vec![], None)], Some(false));
    let html = sidebar_node_html(&site, &open, "/guide/intro/", 1);
    assert!(html.starts_with("<section class=\"group/side VPSidebarItem level-1 collapsible has-active\" x-data=\"{ &quot;open&quot;: true }\""));
    assert!(html.contains("<ul class=\"items border-l border-divider pl-4 group-[.collapsed]/side:hidden\">"));
}

#[test]
fn sidebar_is_empty_without_a_covering_tree() {
    let site = site_with(SiteConfig::default(), vec![]);
    assert_eq!(sidebar_html(&site, "/guide/a/"), "");
}

#[test]
fn sidebar_aside_wraps_each_root_entry() {
    let site = site_with(
        SiteConfig::default(),
        vec![page("/guide/a/", "guide/a.md", "Alpha"), page("/guide/b/", "guide/b.md", "Beta")],
    );
    let html = sidebar_html(&site, "/guide/a/");
    assert!(html.starts_with("<aside class=\"VPSidebar fixed"));
    assert!(html.contains("<span class=\"sr-only\" id=\"sidebar-aria-label\">Sidebar Navigation</span>"));
    assert!(html.contains("aria-current=\"page\""));
    assert!(html.ends_with("</nav></aside>"));
}

#[test]
fn home_page_renders_hero_actions_image_and_features() {
    let site = site_with(SiteConfig::default(), vec![page("/guide/a/", "guide/a.md", "A")]);
    let mut home = page("/", "index.md", "Home");
    home.front.hero = Some(Hero {
        name: Some("A<B".into()),
        text: Some("Docs".into()),
        tagline: Some("Fast".into()),
        image: Some(HeroImage::Simple("/logo.svg".into())),
        actions: vec![HeroAction { theme: None, text: "Get Started".into(), link: "./guide/a.md".into(), target: None, rel: None }],
    });
    home.front.features = vec![
        Feature { icon: Some(FeatureIcon::Text("⚡".into())), title: "T".into(), details: Some("D".into()), link: None, link_text: Some("More".into()), target: None, rel: None },
        Feature {
            icon: Some(FeatureIcon::Image { src: "/i.png".into(), alt: Some("x\"y".into()), width: Some(48), height: None }),
            title: "U".into(),
            details: None,
            link: None,
            link_text: None,
            target: None,
            rel: None,
        },
    ];
    let html = home_page_html(&site, &home);
    assert!(html.starts_with("<div class=\"overflow-x-clip mb-24 md:mb-32\">"));
    assert!(html.contains("lg:flex-row text-center lg:text-left\"><div class=\"relative z-10 order-2 grow shrink-0 lg:max-w-[37rem] lg:order-1"));
    assert!(html.contains("[-webkit-text-fill-color:var(--vp-home-hero-name-color)] mx-auto lg:mx-0 sm:max-w-[36rem] sm:leading-[1.1666667] sm:text-[3rem] lg:leading-[1.1428571] lg:text-[3.5rem]\">A&lt;B</span>"));
    assert!(html.contains("lg:text-[3.5rem]\">Docs</span></h1><p class=\"pt-2"));
    assert!(html.contains("lg:text-[1.5rem]\">Fast</p><div class=\"flex flex-wrap m-[-0.375rem] pt-6 justify-center lg:justify-start sm:pt-8\">"));
    assert!(html.contains("active:duration-100\" href=\"/guide/a/\">Get Started</a></div></div></div>"));
    assert!(html.contains("src=\"/logo.svg\" alt=\"\"></div></div></div></div>"));
    assert!(html.contains("<li class=\"p-2 w-full sm:w-1/2\">"));
    assert!(html.contains("transition-colors duration-[250ms]\">⚡</div><h2 class=\"leading-[1.5] text-[1rem] font-semibold\">T</h2><p class=\"grow pt-2"));
    assert!(html.contains(">More<svg class=\"inline-block size-[1em] ml-[0.375rem] size-[0.875rem]\""));
    assert!(html.contains("<img src=\"/i.png\" alt=\"x&quot;y\" width=\"48\"></div><h2"));
    assert!(html.ends_with("</article></div></li></ul></div></div></div>"));
}

#[test]
fn home_page_without_hero_or_features_keeps_the_empty_heading() {
    let site = site_with(SiteConfig::default(), vec![]);
    let html = home_page_html(&site, &page("/", "index.md", "Home"));
    assert!(html.contains("lg:flex-row\"><div class=\"relative z-10 order-2 grow shrink-0 lg:order-1"));
    assert!(html.ends_with("whitespace-pre-wrap sm:max-w-[36rem] sm:leading-[1.1666667] sm:text-[3rem] lg:leading-[1.1428571] lg:text-[3.5rem]\"></span></h1></div></div></div></div>"));
    assert!(!html.contains("<ul"));
}

fn shell_for(current_url: &str) -> Shell {
    Shell {
        title: "A & B | Site".into(),
        description: "say \"hi\"".into(),
        is_home: false,
        has_navbar: true,
        has_sidebar: false,
        show_footer: true,
        page_class: Some("custom".into()),
        head_extra: String::new(),
        current_url: current_url.into(),
        has_math: true,
        lang: "en-US".into(),
        translations: vec![],
        site_title: None,
    }
}

#[test]
fn layout_builds_the_document_around_the_body() {
    let site = site_with(SiteConfig::default(), vec![]);
    let html = layout_html(&site, &shell_for("/a/"), &vec![heading(2, "x", "X")], "<p>BODY</p>");
    assert!(html.starts_with("<html lang=\"en-US\" class=\"[color-scheme:light] dark:[color-scheme:dark]\"><head><meta charset=\"UTF-8\">"));
    assert!(html.contains("<title>A &amp; B | Site</title><meta name=\"description\" content=\"say &quot;hi&quot;\"><link rel=\"stylesheet\" href=\"/syntax.css\"><link rel=\"stylesheet\" href=\"/main.css\"><script>"));
    assert!(html.contains("window.MathJax"));
    assert!(html.contains("<header class=\"relative top-[var(--vp-layout-top-height,0px)] left-0 z-(--vp-z-index-nav) w-full pointer-events-none lg:fixed\"><div class=\"top relative"));
    assert!(html.contains("id=\"VPNavScreen\" hidden>"));
    assert!(html.contains("</header><div class=\"sticky top-0 left-0"));
    assert!(html.contains("href=\"#x\" title=\"X\">X</a>"));
    assert!(html.contains("<div class=\"grow shrink-0 w-full mx-auto mt-[var(--vp-layout-top-height,0px)] max-w-full lg:pt-(--vp-nav-height) custom\" id=\"VPContent\"><p>BODY</p></div>"));
    assert!(!html.contains("<footer"));
    assert!(!html.contains("VPLocalSearchBox"));
    assert!(html.ends_with("<script src=\"/js/app.js\" defer></script></body></html>"));
}

#[test]
fn layout_footer_hides_beside_a_sidebar() {
    let mut config = SiteConfig::default();
    config.footer = Some(rustpress::config::Footer { message: Some("<b>M</b>".into()), copyright: None });
    config.search = Some(rustpress::config::Search {
        provider: rustpress::config::SearchProvider::Local,
        translations: rustpress::config::SearchTranslations::default(),
    });
    let site = site_with(config, vec![]);
    let mut shell = shell_for("/a/");
    shell.has_sidebar = true;
    shell.has_math = false;
    shell.has_navbar = false;
    shell.is_home = true;
    let html = layout_html(&site, &shell, &vec![], "");
    assert!(html.contains("<footer class=\"relative z-(--vp-z-index-footer) border-t border-gutter py-8 px-6 bg-bg md:px-8 hidden\"><div class=\"mx-auto max-w-(--vp-layout-max-width) text-center [&amp;_a]:underline"));
    assert!(html.contains("<p class=\"leading-[1.7142857] text-[0.875rem] font-medium text-text-2\"><b>M</b></p></div></footer>"));
    assert!(!html.contains("window.MathJax"));
    assert!(!html.contains("<header"));
    assert!(!html.contains("VPLocalNav"));
    assert!(html.contains("x-data=\"searchModal\" data-index-url=\"/search-docs.json\" role=\"dialog\""));
    assert!(html.contains("<kbd class=\"bg-[rgba(128,128,128,0.1)]"));
}

#[test]
fn doc_page_renders_outline_edit_link_and_pager() {
    let mut config = SiteConfig::default();
    config.edit_link = Some(rustpress::config::EditLink { pattern: "https://x.dev/edit/:path".into(), text: None });
    let site = site_with(config, vec![]);
    let p = page("/guide/a/", "guide/a.md", "A");
    let rendered = RenderedPage {
        html: "<h2 id=\"one\">One</h2>".into(),
        headings: vec![heading(2, "one", "One"), heading(4, "deep", "Deep")],
        has_math: false,
    };
    let prev = Some(("Intro".to_string(), "/guide/intro/".to_string()));
    let last = Some(("2026-08-13".to_string(), "Aug 13, 2026".to_string()));
    let html = doc_page_html(&site, &p, &rendered, &prev, &None, true, Some((2, 3)), Some(false), true, &last);
    assert!(html.starts_with("<div class=\"w-full pt-8 px-6 pb-24 md:pt-12 md:pb-32 md:px-8 lg:pt-12 lg:pb-0 lg:px-8\" x-data=\"docPage\"><div class=\"mx-auto w-full xl:flex xl:justify-center\"><div class=\"relative hidden grow pl-8 w-full max-w-64 xl:block order-2\">"));
    assert!(html.contains("aria-level=\"2\">On this page</div><ul class=\"relative z-[1]\">"));
    assert!(html.contains("href=\"#one\""));
    assert!(!html.contains("#deep"));
    assert!(html.contains("<div class=\"relative mx-auto w-full lg:px-8 lg:pb-32 xl:m-0 xl:min-w-[40rem] xl:order-1\"><div class=\"mx-auto max-w-[43rem]\"><main><div id=\"main\" class=\"vp-doc [&amp;_:is("));
    assert!(html.contains("\"><h2 id=\"one\">One</h2></div></main><footer class=\"mt-16\">"));
    assert!(html.contains("href=\"https://x.dev/edit/guide/a.md\"><svg class=\"inline-block size-[1em] mr-2\""));
    assert!(html.contains("</svg>Edit this page on GitHub</a></div>"));
    assert!(html.contains("text-text-2\">Last updated: <time datetime=\"2026-08-13\">Aug 13, 2026</time></p></div></div>"));
    assert!(html.contains("hover:border-brand-1\" href=\"/guide/intro/\"><span class=\"block leading-[1.6666667] text-[0.75rem] font-medium text-text-2\">Previous page</span>"));
    assert!(html.contains(">Intro</span></a></div><div class=\"pager\"></div></nav></footer>"));
    assert!(html.ends_with("</footer></div></div></div></div>"));
}

#[test]
fn doc_page_without_aside_or_footer_content_is_bare() {
    let site = site_with(SiteConfig::default(), vec![]);
    let p = page("/a/", "a.md", "A");
    let rendered = RenderedPage { html: "X".into(), headings: vec![], has_math: false };
    let html = doc_page_html(&site, &p, &rendered, &None, &None, false, None, None, false, &None);
    assert!(html.contains("lg:max-w-[62rem] 2xl:max-w-[69rem]\"><div class=\"relative mx-auto w-full lg:px-8 lg:pb-32 xl:m-0 xl:min-w-[40rem] xl:order-1 lg:max-w-[47rem] 2xl:max-w-[49rem]\">"));
    assert!(html.ends_with("\">X</div></main></div></div></div></div>"));
}

fn nav_link(text: &str, link: &str) -> NavItem {
    NavItem { text: text.into(), link: Some(link.into()), active_match: None, items: vec![], target: None, rel: None }
}

#[test]
fn navbar_renders_title_nav_languages_and_socials() {
    let mut config = SiteConfig::default();
    config.logo = Some(rustpress::config::ThemeableImage::Simple("/logo.png".into()));
    config.nav = vec![
        nav_link("Guide", "/guide/"),
        NavItem { text: "More".into(), link: None, active_match: None, items: vec![nav_link("API", "/api/"), nav_link("FAQ", "/faq/")], target: None, rel: None },
    ];
    config.social_links = vec![rustpress::config::SocialLink {
        icon: SocialIcon::Name("github".into()),
        link: "https://github.com/x".into(),
        aria_label: None,
        target: None,
    }];
    let site = site_with(config, vec![]);
    let langs = vec![("English".to_string(), "/".to_string(), true), ("中文".to_string(), "/zh/".to_string(), false)];
    let html = navbar_html(&site, "/guide/a/", false, true, &langs, &Some("My <Docs>".into()));
    assert!(html.starts_with("<div class=\"top relative z-[1] h-(--vp-nav-height)"));
    assert!(html.contains("[&amp;::before]:duration-[250ms] lg:[--vp-nav-col-offset:var(--vp-sidebar-width)]"));
    assert!(html.contains("lg:shrink-0\" href=\"/\"><img class=\"shrink-0 mr-0 h-(--vp-nav-logo-height)\" src=\"/logo.png\" alt=\"Logo\"><span>My &lt;Docs&gt;</span></a></div></div>"));
    assert!(!html.contains("VPSearchButton"));
    assert!(html.contains("hover:text-brand-1 text-brand-1\" href=\"/guide/\"><span>Guide</span></a></li>"));
    assert!(html.contains("<span>More</span><svg class=\"inline-block size-[1em] rotate-90 ml-1 size-[0.875rem]\""));
    assert!(html.contains("hover:bg-default-soft\" href=\"/api/\">API</a></li>"));
    assert!(html.contains("<a class=\"px-3 text-[0.875rem] font-bold text-brand-1\" href=\"/\" lang=\"English\">English</a><a class=\"px-3 text-[0.875rem] text-text-1\" href=\"/zh/\" lang=\"中文\">中文</a></div>"));
    assert!(html.contains("id=\"VPSwitchAppearance\""));
    assert!(html.contains("href=\"https://github.com/x\" aria-label=\"github\" target=\"_blank\" rel=\"noopener\"><svg class=\"inline-block size-[1em] size-5\""));
    assert!(html.contains("id=\"VPNavBarHamburger\""));
    assert!(html.ends_with("before:bg-divider\"><div class=\"w-full h-px transition-colors duration-[250ms] bg-(--vp-nav-divider-color)\"></div></div></div>"));
}

#[test]
fn navbar_on_home_without_title_or_nav() {
    let site = site_with(SiteConfig::default(), vec![]);
    let html = navbar_html(&site, "/", true, false, &vec![], &None);
    assert!(html.contains("max-lg:[&amp;.home:not(.screen-open)::before]:bg-transparent lg:[&amp;.home.top::before]:bg-(--vp-nav-home-bg-color)"));
    assert!(html.contains("text-ellipsis\" href=\"/\"></a></div></div>"));
    assert!(!html.contains("Main Navigation"));
    assert!(html.ends_with("bg-transparent lg:bg-(--vp-nav-divider-color) lg:[.top_&amp;]:bg-transparent\"></div></div></div>"));
}

#[test]
fn nav_screen_lists_entries_switch_and_socials() {
    let mut config = SiteConfig::default();
    config.nav = vec![
        nav_link("Guide", "/guide/"),
        NavItem { text: "More".into(), link: None, active_match: None, items: vec![nav_link("API", "/api/")], target: None, rel: None },
    ];
    let site = site_with(config, vec![]);
    let html = nav_screen_html(&site, "/guide/x/");
    assert!(html.contains("id=\"VPNavScreen\" hidden><div class=\"mx-auto pt-6 pb-24 max-w-[18rem]\"><nav class=\"menu\" aria-label=\"Main Navigation\"><ul><li><a class=\"block border-b"));
    assert!(html.contains("hover:text-brand-1 text-brand-1\" href=\"/guide/\">Guide</a></li>"));
    assert!(html.contains("<li><div class=\"VPNavScreenMenuGroup group\"><button type=\"button\" class=\"button cursor-pointer\" aria-expanded=\"false\"><span class=\"button-text\">More</span>"));
    assert!(html.contains("hover:text-brand-1\" href=\"/api/\">API</a></li></ul></div></li></ul></nav><div class=\"appearance flex justify-center items-center pt-3 mt-4\">"));
    assert!(html.contains("id=\"VPSwitchAppearanceScreen\""));
    assert!(!html.contains("social-links"));
    assert!(html.ends_with("</button></div></div></div>"));
}

#[test]
fn local_nav_shows_outline_dropdown_except_on_home() {
    let site = site_with(SiteConfig::default(), vec![]);
    let hs = vec![heading(2, "a-b", "A & B")];
    assert_eq!(local_nav_html(&site, true, true, &hs), "");
    let html = local_nav_html(&site, false, true, &hs);
    assert!(html.contains("lg:[&amp;::before]:top-[calc(-1*var(--vp-nav-height))] lg:pl-(--vp-sidebar-width) xl:hidden\" id=\"VPLocalNav\">"));
    assert!(html.contains("id=\"VPLocalNavMenu\""));
    assert!(html.contains("aria-controls=\"VPOutlineDropdownItems\"><span>On this page</span><svg"));
    assert!(html.contains("href=\"/\">Return to top</a></div>"));
    assert!(html.contains("pl-[0.8125rem]\" href=\"#a-b\" title=\"A &amp; B\">A &amp; B</a></li></ul></div></div></div></div></div>"));
    let plain = local_nav_html(&site, false, false, &vec![]);
    assert!(!plain.contains("VPLocalNavMenu"));
}

#[test]
fn not_found_body_links_home() {
    let mut config = SiteConfig::default();
    config.base = "/docs/".into();
    let site = site_with(config, vec![]);
    let html = not_found_body(&site, "Lost & found", "Nothing <here>.", "Home");
    assert!(html.starts_with("<div class=\"w-full pt-8 px-6 pb-24 md:pt-12 md:pb-32 md:px-8 lg:pt-12 lg:pb-0 lg:px-8\"><div class=\"mx-auto w-full"));
    assert!(html.contains("<main><div id=\"main\" class=\"vp-doc [&amp;_:is("));
    assert!(html.ends_with("\"><h1>Lost &amp; found</h1><p>Nothing &lt;here&gt;.</p><p><a href=\"/docs/\">Home</a></p></div></main></div></div></div></div>"));
}

#[test]
fn page_layout_strips_the_doc_chrome() {
    let mut config = SiteConfig::default();
    config.edit_link = Some(rustpress::config::EditLink { pattern: "https://x.dev/:path".into(), text: None });
    let site = site_with(config, vec![]);
    let rendered = RenderedPage { html: "B".into(), headings: vec![heading(2, "h", "H")], has_math: false };
    let last = Some(("2026-01-01".to_string(), "Jan 1, 2026".to_string()));
    let doc = page("/a/", "a.md", "A");
    let full = page_body_html(&site, &doc, &rendered, &None, &None, false, Some((2, 3)), &last);
    assert!(full.contains("VPDocAsideOutline"));
    assert!(full.contains("edit-link"));
    assert!(full.contains("Jan 1, 2026"));
    let mut bare = page("/b/", "b.md", "B");
    bare.front.layout = Some("page".into());
    let stripped = page_body_html(&site, &bare, &rendered, &None, &None, false, Some((2, 3)), &last);
    assert!(!stripped.contains("VPDocAsideOutline"));
    assert!(!stripped.contains("<footer"));
    assert!(stripped.ends_with(">B</div></main></div></div></div></div>"));
    let mut home = page("/", "index.md", "Home");
    home.front.layout = Some("home".into());
    let h = page_body_html(&site, &home, &rendered, &None, &None, false, None, &None);
    assert!(h.starts_with("<div class=\"overflow-x-clip mb-24 md:mb-32\">"));
}

#[test]
fn dead_link_scan_skips_empty_and_unclosed_values() {
    let site = site_with(SiteConfig::default(), vec![page("/", "index.md", "Home")]);
    let p = site.content.pages[0].clone();
    let html = r##"<a href="">e</a><a data-src="/gone/">d</a><img src="/pic.png"><a href="/open"##;
    let dead = find_dead_links(html, &p, &site);
    assert_eq!(dead, vec!["/gone".to_string(), "/pic.png".to_string()]);
}
