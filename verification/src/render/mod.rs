//! Site-level page logic: base-prefixed URLs, document and navbar
//! titles, locale switching, the outline range, the sitemap, dead-link
//! candidates and the search index's plain text; the submodules build
//! the page markup (document shell, navbar, sidebar, local nav, doc and
//! home pages).

pub mod doc;
pub mod doc_page;
pub mod home;
pub mod home_page;
pub mod layout;
pub mod local_nav;
pub mod navbar;
pub mod page_shell;
pub mod sidebar;
pub mod vpdoc;

use vstd::prelude::*;

use crate::config::{AsideSetting, ConfigError, IgnoreDeadLinks, Locale, OutlineConfig, OutlineLevel, SiteConfig, SiteTitleSetting, TitleTemplate};
use crate::content::{ContentError, page_url, spec_page_url, Content, OutlineSetting, Page};
use crate::markdown::preprocess::{contains_seq, contains_v, trim_end_char};
use crate::markdown::{MarkdownError, replace_all, replace_all_v, resolve_relative, spec_resolve_relative};
use crate::markdown::highlight::{dec, push_dec, split_char_v, ws_tokens, ws_tokens_v};
use crate::palettes::{available, available_text, css, spec_palette_css, DEFAULT_NAME};
use crate::parity::{insert_unique, insert_unique_v, sorted_unique};
use crate::sidebar::{join_push_sep, join_with, split_on};
use crate::theme_assets::ascending;
use crate::sidebar::Sidebars;
use crate::render::doc::{format_date, spec_format_date};
use crate::text::{ends_with, ends_with_str, eq_str, from_chars, ix, push_all, push_str, slice_of, starts_with, starts_with_str, starts_with_v, to_chars};

verus! {

broadcast use vstd::string::group_string_axioms;

/// A loaded site: configuration, pages, sidebars, and the resolved UI
/// theme CSS (`None`: the stock look, nothing linked).
pub struct Site {
    pub config: SiteConfig,
    pub content: Content,
    pub sidebars: Sidebars,
    pub theme_css: Option<String>,
}

// ── URLs ───────────────────────────────────────────────────────────────

pub open spec fn is_absolute_link(path: Seq<char>) -> bool {
    starts_with(path, "http://"@) || starts_with(path, "https://"@) || starts_with(path, "mailto:"@)
}

/// A canonical path under the configured base; external links pass
/// through, relative asset names are rooted first.
pub open spec fn spec_site_url(base: Seq<char>, path: Seq<char>) -> Seq<char> {
    let b = trim_end_char(base, '/');
    if is_absolute_link(path) {
        path
    } else if path == "/"@ {
        b + "/"@
    } else if starts_with(path, "/"@) {
        b + path
    } else {
        b + "/"@ + path
    }
}

fn trim_end_slashes(v: &Vec<char>) -> (r: Vec<char>)
    ensures
        r@ == trim_end_char(v@, '/'),
{
    let mut n: usize = v.len();
    assert(v@.take(ix(n)) =~= v@);
    while n > 0 && v[n - 1] == '/'
        invariant
            n <= v.len(),
            trim_end_char(v@, '/') == trim_end_char(v@.take(ix(n)), '/'),
        decreases n,
    {
        assert(v@.take(ix(n)).drop_last() =~= v@.take(ix(n) - 1));
        n -= 1;
    }
    let r = slice_of(v, 0, n);
    assert(r@ =~= v@.take(ix(n)));
    r
}

fn is_absolute_link_v(p: &Vec<char>) -> (b: bool)
    ensures
        b == is_absolute_link(p@),
{
    starts_with_str(p, "http://") || starts_with_str(p, "https://") || starts_with_str(p, "mailto:")
}

pub fn site_url(base: &str, path: &str) -> (r: String)
    ensures
        r@ == spec_site_url(base@, path@),
{
    let p = to_chars(path);
    if is_absolute_link_v(&p) {
        return String::from_str(path);
    }
    let mut out = trim_end_slashes(&to_chars(base));
    proof {
        reveal_strlit("/");
    }
    if eq_str(&p, "/") {
        push_str(&mut out, "/");
    } else if starts_with_str(&p, "/") {
        push_all(&mut out, &p);
    } else {
        push_str(&mut out, "/");
        push_all(&mut out, &p);
    }
    from_chars(&out)
}

// ── locales and titles ─────────────────────────────────────────────────

/// The locale configured under `key` (the first entry with that key).
pub open spec fn locale_entry(locales: Seq<(String, Locale)>, key: Seq<char>) -> Option<Locale>
    decreases locales.len(),
{
    if locales.len() == 0 {
        None
    } else if locales[0].0@ == key {
        Some(locales[0].1)
    } else {
        locale_entry(locales.drop_first(), key)
    }
}

fn find_locale<'a>(locales: &'a Vec<(String, Locale)>, key: &str) -> (r: Option<&'a Locale>)
    ensures
        match r {
            Some(l) => locale_entry(locales@, key@) == Some(*l),
            None => locale_entry(locales@, key@) is None,
        },
{
    let k = to_chars(key);
    let mut i: usize = 0;
    assert(locales@.skip(0) =~= locales@);
    while i < locales.len()
        invariant
            i <= locales.len(),
            k@ == key@,
            locale_entry(locales@, key@) == locale_entry(locales@.skip(ix(i)), key@),
        decreases locales.len() - i,
    {
        assert(locales@.skip(ix(i))[0] == locales@[ix(i)]);
        assert(locales@.skip(ix(i)).drop_first() =~= locales@.skip(ix(i) + 1));
        if eq_str(&k, locales[i].0.as_str()) {
            return Some(&locales[i].1);
        }
        i += 1;
    }
    None
}

/// A page's `lang`: its locale's code, else the site language.
pub open spec fn spec_locale_lang(config: SiteConfig, page: Page) -> Seq<char> {
    match locale_entry(config.locales@, page.locale@) {
        Some(l) => match l.lang {
            Some(x) => x@,
            None => config.lang@,
        },
        None => config.lang@,
    }
}

/// The site title a locale's pages carry: its `title`, else the site's.
pub open spec fn spec_locale_title(config: SiteConfig, locale: Seq<char>) -> Option<Seq<char>> {
    let own = match locale_entry(config.locales@, locale) {
        Some(l) => l.title,
        None => None,
    };
    match own {
        Some(t) => Some(t@),
        None => match config.title {
            Some(t) => Some(t@),
            None => None,
        },
    }
}

/// The site part of `<title>` (locale-aware, unaffected by `siteTitle`).
pub open spec fn spec_document_site_title(config: SiteConfig, page: Page) -> Seq<char> {
    match spec_locale_title(config, page.locale@) {
        Some(t) => t,
        None => Seq::empty(),
    }
}

/// The navbar title: `siteTitle` text wins, `false` hides it, else the
/// locale-aware site title.
pub open spec fn spec_navbar_site_title(config: SiteConfig, page: Page) -> Option<Seq<char>> {
    match config.site_title {
        Some(SiteTitleSetting::Text(t)) => Some(t@),
        Some(SiteTitleSetting::Hide(_)) => None,
        None => Some(spec_document_site_title(config, page)),
    }
}

/// `<title>`: home pages and untitled pages carry the site title alone;
/// the page's `titleTemplate`, else the site's, replaces `:title` with
/// the page title, `false` drops the suffix, a template without `:title`
/// is appended after ` — `; without a template it is `Page | Site`.
pub open spec fn spec_document_title(config: SiteConfig, page: Page, is_home: bool) -> Seq<char> {
    let site_title = spec_document_site_title(config, page);
    if is_home || page.title@.len() == 0 {
        site_title
    } else {
        match (match page.front.title_template {
            Some(t) => Some(t),
            None => config.title_template,
        }) {
            Some(TitleTemplate::Off(_)) => page.title@,
            Some(TitleTemplate::Tmpl(t)) => if contains_seq(t@, ":title"@) {
                replace_all(t@, ":title"@, page.title@)
            } else {
                page.title@ + " — "@ + t@
            },
            None => page.title@ + " | "@ + site_title,
        }
    }
}

fn concat3(a: &str, b: &str, c: &str) -> (r: String)
    ensures
        r@ == a@ + b@ + c@,
{
    let mut v = to_chars(a);
    push_str(&mut v, b);
    push_str(&mut v, c);
    from_chars(&v)
}

impl Site {
    pub fn url(&self, path: &str) -> (r: String)
        ensures
            r@ == spec_site_url(self.config.base@, path@),
    {
        site_url(self.config.base.as_str(), path)
    }

    pub fn locale_lang(&self, page: &Page) -> (r: String)
        ensures
            r@ == spec_locale_lang(self.config, *page),
    {
        match find_locale(&self.config.locales, page.locale.as_str()) {
            Some(l) => match &l.lang {
                Some(x) => x.clone(),
                None => self.config.lang.clone(),
            },
            None => self.config.lang.clone(),
        }
    }

    pub fn locale_title(&self, locale: &str) -> (r: Option<String>)
        ensures
            match (r, spec_locale_title(self.config, locale@)) {
                (Some(a), Some(b)) => a@ == b,
                (None, None) => true,
                _ => false,
            },
    {
        let own = match find_locale(&self.config.locales, locale) {
            Some(l) => match &l.title {
                Some(t) => Some(t.clone()),
                None => None,
            },
            None => None,
        };
        match own {
            Some(t) => Some(t),
            None => match &self.config.title {
                Some(t) => Some(t.clone()),
                None => None,
            },
        }
    }

    pub fn document_site_title(&self, page: &Page) -> (r: String)
        ensures
            r@ == spec_document_site_title(self.config, *page),
    {
        match self.locale_title(page.locale.as_str()) {
            Some(t) => t,
            None => String::new(),
        }
    }

    pub fn navbar_site_title(&self, page: &Page) -> (r: Option<String>)
        ensures
            match (r, spec_navbar_site_title(self.config, *page)) {
                (Some(a), Some(b)) => a@ == b,
                (None, None) => true,
                _ => false,
            },
    {
        match &self.config.site_title {
            Some(SiteTitleSetting::Text(t)) => Some(t.clone()),
            Some(SiteTitleSetting::Hide(_)) => None,
            None => Some(self.document_site_title(page)),
        }
    }

    pub fn document_title(&self, page: &Page, is_home: bool) -> (r: String)
        ensures
            r@ == spec_document_title(self.config, *page, is_home),
    {
        let site_title = self.document_site_title(page);
        if is_home || page.title.unicode_len() == 0 {
            return site_title;
        }
        let tmpl = match &page.front.title_template {
            Some(t) => Some(t),
            None => match &self.config.title_template {
                Some(t) => Some(t),
                None => None,
            },
        };
        match tmpl {
            Some(TitleTemplate::Off(_)) => page.title.clone(),
            Some(TitleTemplate::Tmpl(t)) => {
                let tv = to_chars(t.as_str());
                let mark = to_chars(":title");
                proof {
                    reveal_strlit(":title");
                }
                if contains_v(&tv, &mark) {
                    from_chars(&replace_all_v(&tv, ":title", page.title.as_str()))
                } else {
                    concat3(page.title.as_str(), " — ", t.as_str())
                }
            },
            None => concat3(page.title.as_str(), " | ", site_title.as_str()),
        }
    }
}

// ── language switcher ──────────────────────────────────────────────────

/// Some page has canonical URL `url`.
pub open spec fn has_page(pages: Seq<Page>, url: Seq<char>) -> bool {
    exists|k: int| 0 <= k < pages.len() && (#[trigger] pages[k]).url@ == url
}

pub fn has_page_v(pages: &Vec<Page>, url: &Vec<char>) -> (b: bool)
    ensures
        b == has_page(pages@, url@),
{
    let mut i: usize = 0;
    while i < pages.len()
        invariant
            i <= pages.len(),
            forall|k: int| 0 <= k < i ==> (#[trigger] pages@[k]).url@ != url@,
        decreases pages.len() - i,
    {
        if eq_str(url, pages[i].url.as_str()) {
            return true;
        }
        i += 1;
    }
    false
}

/// The URL prefix of a locale's pages (none for `root`).
pub open spec fn locale_base(key: Seq<char>) -> Seq<char> {
    if key == "root"@ {
        Seq::empty()
    } else {
        "/"@ + key
    }
}

fn locale_base_v(key: &str) -> (r: Vec<char>)
    ensures
        r@ == locale_base(key@),
{
    let k = to_chars(key);
    proof {
        reveal_strlit("root");
    }
    if eq_str(&k, "root") {
        Vec::new()
    } else {
        let mut r = to_chars("/");
        push_all(&mut r, &k);
        r
    }
}

pub open spec fn strip_prefix_or_keep(s: Seq<char>, p: Seq<char>) -> Seq<char> {
    if starts_with(s, p) {
        s.skip(p.len() as int)
    } else {
        s
    }
}

/// One language-switcher entry (label, href, is current): the page
/// with the same path in that locale when it exists, else the locale's
/// root.
pub open spec fn translation(config: SiteConfig, pages: Seq<Page>, page: Page, key: Seq<char>, loc: Locale) -> (
    Seq<char>,
    Seq<char>,
    bool,
) {
    let rest = strip_prefix_or_keep(page.url@, locale_base(page.locale@));
    let tb = locale_base(key);
    let candidate = tb + rest;
    let current = key == page.locale@;
    let href = if current {
        spec_site_url(config.base@, page.url@)
    } else if has_page(pages, candidate) {
        spec_site_url(config.base@, candidate)
    } else {
        spec_site_url(config.base@, tb + "/"@)
    };
    (loc.label@, href, current)
}

/// The language switcher of a page: one entry per configured locale,
/// none on single-locale sites.
pub open spec fn spec_translations(config: SiteConfig, pages: Seq<Page>, page: Page) -> Seq<
    (Seq<char>, Seq<char>, bool),
> {
    if config.locales@.len() <= 1 {
        Seq::empty()
    } else {
        Seq::new(
            config.locales@.len(),
            |i: int| translation(config, pages, page, config.locales@[i].0@, config.locales@[i].1),
        )
    }
}

pub open spec fn triple_view(t: (String, String, bool)) -> (Seq<char>, Seq<char>, bool) {
    (t.0@, t.1@, t.2)
}

impl Site {
    pub fn translations_for(&self, page: &Page) -> (r: Vec<(String, String, bool)>)
        ensures
            r@.map_values(|t: (String, String, bool)| triple_view(t)) == spec_translations(
                self.config,
                self.content.pages@,
                *page,
            ),
    {
        let ghost want = spec_translations(self.config, self.content.pages@, *page);
        let mut out: Vec<(String, String, bool)> = Vec::new();
        if self.config.locales.len() <= 1 {
            assert(out@.map_values(|t: (String, String, bool)| triple_view(t)) =~= want);
            return out;
        }
        let own = locale_base_v(page.locale.as_str());
        let url = to_chars(page.url.as_str());
        let rest = if starts_with_v(&url, &own) {
            slice_of(&url, own.len(), url.len())
        } else {
            url.clone()
        };
        assert(rest@ == strip_prefix_or_keep(page.url@, locale_base(page.locale@)));
        let mut i: usize = 0;
        while i < self.config.locales.len()
            invariant
                i <= self.config.locales.len(),
                self.config.locales.len() > 1,
                want == spec_translations(self.config, self.content.pages@, *page),
                rest@ == strip_prefix_or_keep(page.url@, locale_base(page.locale@)),
                out@.map_values(|t: (String, String, bool)| triple_view(t)) =~= want.take(ix(i)),
            decreases self.config.locales.len() - i,
        {
            let key = &self.config.locales[i].0;
            let loc = &self.config.locales[i].1;
            let tb = locale_base_v(key.as_str());
            let mut candidate = tb.clone();
            push_all(&mut candidate, &rest);
            let current = eq_str(&to_chars(key.as_str()), page.locale.as_str());
            let href = if current {
                self.url(page.url.as_str())
            } else if has_page_v(&self.content.pages, &candidate) {
                self.url(from_chars(&candidate).as_str())
            } else {
                let mut root = tb.clone();
                root.push('/');
                proof {
                    reveal_strlit("/");
                    assert(root@ =~= tb@ + "/"@);
                }
                self.url(from_chars(&root).as_str())
            };
            let entry = (loc.label.clone(), href, current);
            let ghost before = out@;
            out.push(entry);
            proof {
                assert(triple_view(entry) == want[ix(i)]);
                assert(out@.map_values(|t: (String, String, bool)| triple_view(t)) =~= before.map_values(
                    |t: (String, String, bool)| triple_view(t),
                ).push(triple_view(entry)));
                assert(want.take(ix(i) + 1) =~= want.take(ix(i)).push(want[ix(i)]));
            }
            i += 1;
        }
        assert(want.take(ix(i)) =~= want);
        out
    }
}

// ── outline range ──────────────────────────────────────────────────────

/// The outline's heading-level range: page front matter overrides the
/// site setting (`false` is none, `deep` is 2–6), also where the site
/// disables the outline; without a page setting, the site's range, or
/// none when the site disables it.
pub open spec fn spec_outline_range(config: SiteConfig, page: Page) -> Option<(u8, u8)> {
    let level = match config.outline {
        OutlineConfig::Off(_) => None,
        OutlineConfig::Level(l) => Some(l),
        OutlineConfig::Full(o) => o.level,
    };
    let site = match level {
        Some(OutlineLevel::Single(n)) => (n, n),
        Some(OutlineLevel::Range((a, b))) => (a, b),
        None => (2u8, 3u8),
    };
    match page.front.outline {
        Some(OutlineSetting::Off) => None,
        Some(OutlineSetting::Deep) => Some((2u8, 6u8)),
        Some(OutlineSetting::Level(n)) => Some((n, n)),
        Some(OutlineSetting::Range((a, b))) => Some((a, b)),
        None => if config.outline matches OutlineConfig::Off(false) {
            None
        } else {
            Some(site)
        },
    }
}

pub fn outline_range(config: &SiteConfig, page: &Page) -> (r: Option<(u8, u8)>)
    ensures
        r == spec_outline_range(*config, *page),
{
    let site = match config.outline.level() {
        Some(OutlineLevel::Single(n)) => (n, n),
        Some(OutlineLevel::Range((a, b))) => (a, b),
        None => (2, 3),
    };
    match &page.front.outline {
        Some(OutlineSetting::Off) => None,
        Some(OutlineSetting::Deep) => Some((2, 6)),
        Some(OutlineSetting::Level(n)) => Some((*n, *n)),
        Some(OutlineSetting::Range((a, b))) => Some((*a, *b)),
        None => if config.outline.enabled() {
            Some(site)
        } else {
            None
        },
    }
}

// ── sitemap ────────────────────────────────────────────────────────────

pub open spec fn sitemap_entry(base: Seq<char>, host: Seq<char>, page: Page) -> Seq<char> {
    let lastmod = match page.modified {
        Some(t) => "    <lastmod>"@ + spec_format_date(t as nat).0 + "</lastmod>\n"@,
        None => Seq::empty(),
    };
    "  <url>\n"@ + "    <loc>"@ + host + spec_site_url(base, page.url@) + "</loc>\n"@ + lastmod + "  </url>\n"@
}

pub open spec fn sitemap_entries(base: Seq<char>, host: Seq<char>, pages: Seq<Page>) -> Seq<char>
    decreases pages.len(),
{
    if pages.len() == 0 {
        Seq::empty()
    } else {
        sitemap_entries(base, host, pages.drop_last()) + sitemap_entry(base, host, pages.last())
    }
}

/// `sitemap.xml`: every page URL under the hostname, with the page
/// timestamp's date as `lastmod`.
pub open spec fn spec_sitemap_xml(base: Seq<char>, hostname: Seq<char>, pages: Seq<Page>) -> Seq<char> {
    "<?xml version=\"1.0\" encoding=\"UTF-8\"?>\n"@ + "<urlset xmlns=\"http://www.sitemaps.org/schemas/sitemap/0.9\">\n"@
        + sitemap_entries(base, trim_end_char(hostname, '/'), pages) + "</urlset>\n"@
}

impl Site {
    #[verifier::spinoff_prover]
    #[verifier::rlimit(40)]
    pub fn sitemap_xml(&self, hostname: &str) -> (r: String)
        ensures
            r@ == spec_sitemap_xml(self.config.base@, hostname@, self.content.pages@),
    {
        let host = trim_end_slashes(&to_chars(hostname));
        let mut xml = to_chars("<?xml version=\"1.0\" encoding=\"UTF-8\"?>\n");
        push_str(&mut xml, "<urlset xmlns=\"http://www.sitemaps.org/schemas/sitemap/0.9\">\n");
        let ghost head = xml@;
        let ghost pages = self.content.pages@;
        let mut i: usize = 0;
        assert(pages.take(0) =~= Seq::<Page>::empty());
        assert(xml@ =~= head + sitemap_entries(self.config.base@, host@, pages.take(0)));
        while i < self.content.pages.len()
            invariant
                i <= self.content.pages.len(),
                pages == self.content.pages@,
                xml@ == head + sitemap_entries(self.config.base@, host@, pages.take(ix(i))),
            decreases self.content.pages.len() - i,
        {
            let page = &self.content.pages[i];
            let ghost before = xml@;
            push_str(&mut xml, "  <url>\n");
            push_str(&mut xml, "    <loc>");
            push_all(&mut xml, &host);
            let u = self.url(page.url.as_str());
            push_str(&mut xml, u.as_str());
            push_str(&mut xml, "</loc>\n");
            match page.modified {
                Some(t) => {
                    let (date, _) = format_date(t);
                    push_str(&mut xml, "    <lastmod>");
                    push_str(&mut xml, date.as_str());
                    push_str(&mut xml, "</lastmod>\n");
                },
                None => {},
            }
            push_str(&mut xml, "  </url>\n");
            proof {
                assert(pages.take(ix(i) + 1).drop_last() =~= pages.take(ix(i)));
                assert(xml@ =~= before + sitemap_entry(self.config.base@, host@, *page));
            }
            i += 1;
        }
        assert(pages.take(ix(i)) =~= pages);
        push_str(&mut xml, "</urlset>\n");
        from_chars(&xml)
    }
}

// ── dead links ─────────────────────────────────────────────────────────

/// The first `"` at or after `j` (the end of `s` when there is none).
pub open spec fn next_quote(s: Seq<char>, j: int) -> int
    decreases s.len() - j,
{
    if j < 0 || j >= s.len() || s[j] == '"' {
        j
    } else {
        next_quote(s, j + 1)
    }
}

/// Where an attribute value starts when `href="` or `src="` starts at
/// `i`.
pub open spec fn value_start(s: Seq<char>, i: int) -> Option<int> {
    if starts_with(s.skip(i), "href=\""@) {
        Some(i + 6)
    } else if starts_with(s.skip(i), "src=\""@) {
        Some(i + 5)
    } else {
        None
    }
}

/// The non-empty, closed `href="…"` / `src="…"` values from `i` on,
/// scanning left to right and going on after each value's closing quote.
pub open spec fn link_targets_from(s: Seq<char>, i: int) -> Seq<Seq<char>>
    decreases s.len() - i,
{
    if i < 0 || i >= s.len() {
        Seq::empty()
    } else {
        match value_start(s, i) {
            Some(v) => if next_quote(s, v) < s.len() && next_quote(s, v) > v {
                seq![s.subrange(v, next_quote(s, v))] + link_targets_from(s, next_quote(s, v) + 1)
            } else {
                link_targets_from(s, i + 1)
            },
            None => link_targets_from(s, i + 1),
        }
    }
}

/// The `href="…"` / `src="…"` attribute values of a page, in document
/// order: the first groups of the matches of `(?:href|src)="([^"]+)"`.
pub open spec fn spec_link_targets(html: Seq<char>) -> Seq<Seq<char>> {
    link_targets_from(html, 0)
}

/// `regex::Regex::captures_iter` with the link-attribute pattern; the
/// first group of each match, in order: each match is the leftmost
/// `href="` or `src="` followed by a non-empty value and its closing
/// quote, as `spec_link_targets` scans.
#[verifier::external_body]
fn link_targets(html: &str) -> (r: Vec<String>)
    ensures
        r.deep_view() == spec_link_targets(html@),
{
    let re = regex::Regex::new(r#"(?:href|src)="([^"]+)""#).unwrap();
    re.captures_iter(html).map(|c| c[1].to_string()).collect()
}

/// Links the dead-link check never follows: external, data and
/// same-page fragment links.
pub open spec fn unchecked_link(raw: Seq<char>) -> bool {
    ||| starts_with(raw, "http://"@)
    ||| starts_with(raw, "https://"@)
    ||| starts_with(raw, "mailto:"@)
    ||| starts_with(raw, "data:"@)
    ||| starts_with(raw, "#"@)
}

/// The directory segments of a source-relative path (`a/b/x.md` →
/// `a`, `b`).
pub open spec fn dir_pieces(ps: Seq<Seq<char>>) -> Seq<Seq<char>>
    decreases ps.len(),
{
    if ps.len() == 0 {
        Seq::empty()
    } else {
        let prev = dir_pieces(ps.drop_last());
        if ps.last().len() == 0 || ps.last() == "."@ {
            prev
        } else {
            prev.push(ps.last())
        }
    }
}

pub open spec fn source_dir(rel: Seq<char>) -> Seq<Seq<char>> {
    dir_pieces(split_on(rel, '/').drop_last())
}

/// Appending link segments: `.` stays, `..` drops the last segment (if
/// any), anything else (empty ones too) is appended.
pub open spec fn link_fold(base: Seq<Seq<char>>, ps: Seq<Seq<char>>) -> Seq<Seq<char>>
    decreases ps.len(),
{
    if ps.len() == 0 {
        base
    } else {
        let acc = link_fold(base, ps.drop_last());
        let p = ps.last();
        if p == "."@ {
            acc
        } else if p == ".."@ {
            if acc.len() > 0 {
                acc.drop_last()
            } else {
                acc
            }
        } else {
            acc.push(p)
        }
    }
}

/// What one link target contributes to the dead-link candidates:
/// absolute targets that name no page (as `x/` or `x.html`), and
/// relative targets that resolve to no page (resolved against the
/// page's source directory, by path).
pub open spec fn dead_candidate(raw: Seq<char>, page: Page, pages: Seq<Page>) -> Option<Seq<char>> {
    let no_frag = split_on(raw, '#')[0];
    if unchecked_link(raw) || no_frag.len() == 0 {
        None
    } else if starts_with(no_frag, "/"@) {
        let target = trim_end_char(no_frag, '/');
        if !has_page(pages, target + "/"@) && !has_page(pages, target + ".html"@) {
            Some(target)
        } else {
            None
        }
    } else if spec_resolve_relative(no_frag, page.rel@, pages) is Some {
        None
    } else {
        let path = join_with(link_fold(source_dir(page.rel@), split_on(no_frag, '/')), "/"@);
        let url = "/"@ + trim_end_char(path, '/') + "/"@;
        if !has_page(pages, url) {
            Some(path)
        } else {
            None
        }
    }
}

pub open spec fn dead_candidates(targets: Seq<Seq<char>>, page: Page, pages: Seq<Page>) -> Seq<Seq<char>>
    decreases targets.len(),
{
    if targets.len() == 0 {
        Seq::empty()
    } else {
        let prev = dead_candidates(targets.drop_last(), page, pages);
        match dead_candidate(targets.last(), page, pages) {
            Some(x) => prev.push(x),
            None => prev,
        }
    }
}

/// Dead-link candidates of a rendered page, distinct and sorted; the
/// disk check for output files comes after the build.
pub open spec fn spec_find_dead_links(html: Seq<char>, page: Page, pages: Seq<Page>) -> Seq<Seq<char>> {
    sorted_unique(dead_candidates(spec_link_targets(html), page, pages))
}

fn first_piece(v: &Vec<char>, c: char) -> (r: Vec<char>)
    ensures
        r@ == split_on(v@, c)[0],
{
    let ps = split_char_v(v, c);
    assert(split_on(v@, c).len() >= 1);
    assert(ps.deep_view()[0] == ps@[0]@);
    ps[0].clone()
}

fn source_dir_v(rel: &str) -> (r: Vec<Vec<char>>)
    ensures
        r.deep_view() == source_dir(rel@),
{
    let ps = split_char_v(&to_chars(rel), '/');
    let ghost pv = ps.deep_view();
    let n: usize = if ps.len() > 0 { ps.len() - 1 } else { 0 };
    let ghost dl = pv.drop_last();
    let mut out: Vec<Vec<char>> = Vec::new();
    let mut i: usize = 0;
    proof {
        if pv.len() == 0 {
            assert(dl.len() == 0);
        }
        assert(dl.take(0) =~= Seq::<Seq<char>>::empty());
        assert(out.deep_view() =~= dir_pieces(dl.take(0)));
    }
    while i < n
        invariant
            i <= n,
            n == dl.len(),
            pv == ps.deep_view(),
            dl == pv.drop_last(),
            n <= ps.len(),
            out.deep_view() == dir_pieces(dl.take(ix(i))),
        decreases n - i,
    {
        let p = &ps[i];
        assert(dl[ix(i)] == p@);
        assert(dl.take(ix(i) + 1).drop_last() =~= dl.take(ix(i)));
        proof {
            reveal_strlit(".");
        }
        if !(p.len() == 0 || eq_str(p, ".")) {
            let ghost before = out.deep_view();
            out.push(p.clone());
            assert(out.deep_view() =~= before.push(p@));
        }
        i += 1;
    }
    assert(dl.take(ix(i)) =~= dl);
    out
}

fn link_fold_v(base: Vec<Vec<char>>, ps: &Vec<Vec<char>>) -> (r: Vec<Vec<char>>)
    ensures
        r.deep_view() == link_fold(base.deep_view(), ps.deep_view()),
{
    let ghost b0 = base.deep_view();
    let ghost pv = ps.deep_view();
    let mut acc = base;
    let mut i: usize = 0;
    assert(pv.take(0) =~= Seq::<Seq<char>>::empty());
    while i < ps.len()
        invariant
            i <= ps.len(),
            pv == ps.deep_view(),
            acc.deep_view() == link_fold(b0, pv.take(ix(i))),
        decreases ps.len() - i,
    {
        let p = &ps[i];
        assert(pv[ix(i)] == p@);
        assert(pv.take(ix(i) + 1).drop_last() =~= pv.take(ix(i)));
        proof {
            reveal_strlit(".");
            reveal_strlit("..");
        }
        let ghost before = acc.deep_view();
        if eq_str(p, ".") {
        } else if eq_str(p, "..") {
            if acc.len() > 0 {
                acc.pop();
                assert(acc.deep_view() =~= before.drop_last());
            }
        } else {
            acc.push(p.clone());
            assert(acc.deep_view() =~= before.push(p@));
        }
        i += 1;
    }
    assert(pv.take(ix(i)) =~= pv);
    acc
}

fn with_tail(v: &Vec<char>, t: &str) -> (r: Vec<char>)
    ensures
        r@ == v@ + t@,
{
    let mut r = v.clone();
    push_str(&mut r, t);
    r
}

fn dead_candidate_v(raw: &String, page: &Page, content: &Content) -> (r: Option<String>)
    ensures
        match (r, dead_candidate(raw@, *page, content.pages@)) {
            (Some(a), Some(b)) => a@ == b,
            (None, None) => true,
            _ => false,
        },
{
    let rv = to_chars(raw.as_str());
    let no_frag = first_piece(&rv, '#');
    if starts_with_str(&rv, "http://") || starts_with_str(&rv, "https://") || starts_with_str(&rv, "mailto:")
        || starts_with_str(&rv, "data:") || starts_with_str(&rv, "#") || no_frag.len() == 0 {
        return None;
    }
    proof {
        reveal_strlit("/");
        reveal_strlit(".html");
    }
    if starts_with_str(&no_frag, "/") {
        let target = trim_end_slashes(&no_frag);
        let slash = with_tail(&target, "/");
        let html = with_tail(&target, ".html");
        if !has_page_v(&content.pages, &slash) && !has_page_v(&content.pages, &html) {
            return Some(from_chars(&target));
        }
        return None;
    }
    let nf = from_chars(&no_frag);
    if resolve_relative(nf.as_str(), page.rel.as_str(), content).is_some() {
        return None;
    }
    let segs = link_fold_v(source_dir_v(page.rel.as_str()), &split_char_v(&no_frag, '/'));
    let mut path: Vec<char> = Vec::new();
    join_push_sep(&mut path, &segs, "/");
    assert(path@ =~= join_with(segs.deep_view(), "/"@));
    let mut url = to_chars("/");
    push_all(&mut url, &trim_end_slashes(&path));
    push_str(&mut url, "/");
    if !has_page_v(&content.pages, &url) {
        Some(from_chars(&path))
    } else {
        None
    }
}

/// Dead-link candidates of one rendered page.
pub fn find_dead_links(html: &str, page: &Page, site: &Site) -> (r: Vec<String>)
    ensures
        r.deep_view() == spec_find_dead_links(html@, *page, site.content.pages@),
        ascending(r.deep_view()),
{
    let targets = link_targets(html);
    let ghost tv = targets.deep_view();
    let mut out: Vec<String> = Vec::new();
    let mut i: usize = 0;
    assert(tv.take(0) =~= Seq::<Seq<char>>::empty());
    assert(out.deep_view() =~= sorted_unique(dead_candidates(tv.take(0), *page, site.content.pages@)));
    while i < targets.len()
        invariant
            i <= targets.len(),
            tv == targets.deep_view(),
            tv == spec_link_targets(html@),
            out.deep_view() == sorted_unique(dead_candidates(tv.take(ix(i)), *page, site.content.pages@)),
            ascending(out.deep_view()),
        decreases targets.len() - i,
    {
        assert(tv[ix(i)] == targets@[ix(i)]@);
        assert(tv.take(ix(i) + 1).drop_last() =~= tv.take(ix(i)));
        let ghost prev = dead_candidates(tv.take(ix(i)), *page, site.content.pages@);
        match dead_candidate_v(&targets[i], page, &site.content) {
            Some(x) => {
                proof {
                    let next = dead_candidates(tv.take(ix(i) + 1), *page, site.content.pages@);
                    assert(next == prev.push(x@));
                    assert(next.drop_last() =~= prev);
                    assert(sorted_unique(next) == insert_unique(sorted_unique(prev), x@));
                }
                insert_unique_v(&mut out, x);
            },
            None => {},
        }
        i += 1;
    }
    assert(tv.take(ix(i)) =~= tv);
    out
}

// ── search text ────────────────────────────────────────────────────────

/// The UTF-8 length of a character.
pub open spec fn utf8_len(c: char) -> nat {
    let u = c as u32;
    if u < 0x80 {
        1
    } else if u < 0x800 {
        2
    } else if u < 0x10000 {
        3
    } else {
        4
    }
}

/// Where an entity name starting at `k` ends: at `;`, at the end of the
/// text, or once the name is longer than 8 bytes.
pub open spec fn entity_stop(s: Seq<char>, k: int, bytes: nat) -> int
    decreases s.len() - k,
{
    if k < 0 || k >= s.len() {
        s.len() as int
    } else if s[k] == ';' || bytes > 8 {
        k
    } else {
        entity_stop(s, k + 1, bytes + utf8_len(s[k]))
    }
}

/// The entities the renderers emit, decoded; others are kept as written.
pub open spec fn decode_entity(name: Seq<char>) -> Seq<char> {
    if name == "amp"@ {
        "&"@
    } else if name == "lt"@ {
        "<"@
    } else if name == "gt"@ {
        ">"@
    } else if name == "quot"@ {
        "\""@
    } else if name == "apos"@ {
        "'"@
    } else if name == "nbsp"@ {
        seq!['\u{a0}']
    } else {
        "&"@ + name + ";"@
    }
}

/// The text of `s` from `i` on, tags dropped, entities outside tags
/// decoded (the character after an entity's name is consumed).
pub open spec fn strip_tags_from(s: Seq<char>, i: int, in_tag: bool) -> Seq<char>
    decreases s.len() - i,
{
    if i < 0 || i >= s.len() {
        Seq::empty()
    } else if s[i] == '<' {
        strip_tags_from(s, i + 1, true)
    } else if s[i] == '>' {
        strip_tags_from(s, i + 1, false)
    } else if s[i] == '&' && !in_tag {
        let j = entity_stop(s, i + 1, 0);
        proof {
            lemma_entity_stop(s, i + 1, 0);
        }
        let next = if j < s.len() { j + 1 } else { s.len() as int };
        decode_entity(s.subrange(i + 1, j)) + strip_tags_from(s, next, false)
    } else if !in_tag {
        seq![s[i]] + strip_tags_from(s, i + 1, false)
    } else {
        strip_tags_from(s, i + 1, in_tag)
    }
}

pub proof fn lemma_entity_stop(s: Seq<char>, k: int, bytes: nat)
    requires
        0 <= k <= s.len(),
    ensures
        k <= entity_stop(s, k, bytes) <= s.len(),
    decreases s.len() - k,
{
    if k < s.len() && !(s[k] == ';' || bytes > 8) {
        lemma_entity_stop(s, k + 1, bytes + utf8_len(s[k]));
    }
}

/// The search index body of a rendered page: text without tags,
/// entities decoded, whitespace runs collapsed to single spaces.
pub open spec fn spec_plain_text(html: Seq<char>) -> Seq<char> {
    join_with(ws_tokens(strip_tags_from(html, 0, false)), " "@)
}

fn utf8_len_v(c: char) -> (n: usize)
    ensures
        n == utf8_len(c),
{
    let u = c as u32;
    if u < 0x80 {
        1
    } else if u < 0x800 {
        2
    } else if u < 0x10000 {
        3
    } else {
        4
    }
}

fn push_decoded_entity(out: &mut Vec<char>, name: &Vec<char>)
    ensures
        final(out)@ == old(out)@ + decode_entity(name@),
{
    proof {
        reveal_strlit("amp");
        reveal_strlit("lt");
        reveal_strlit("gt");
        reveal_strlit("quot");
        reveal_strlit("apos");
        reveal_strlit("nbsp");
        reveal_strlit("&");
        reveal_strlit("<");
        reveal_strlit(">");
        reveal_strlit("\"");
        reveal_strlit("'");
        reveal_strlit(";");
    }
    if eq_str(name, "amp") {
        out.push('&');
    } else if eq_str(name, "lt") {
        out.push('<');
    } else if eq_str(name, "gt") {
        out.push('>');
    } else if eq_str(name, "quot") {
        out.push('"');
    } else if eq_str(name, "apos") {
        out.push('\'');
    } else if eq_str(name, "nbsp") {
        out.push('\u{a0}');
    } else {
        out.push('&');
        push_all(out, name);
        out.push(';');
    }
    proof {
        assert(seq!['&'] =~= "&"@);
    }
}

pub fn plain_text(html: &str) -> (r: String)
    ensures
        r@ == spec_plain_text(html@),
{
    let s = to_chars(html);
    let ghost sv = s@;
    let mut out: Vec<char> = Vec::new();
    let mut in_tag = false;
    let mut i: usize = 0;
    let ghost goal = strip_tags_from(sv, 0, false);
    assert(out@ + strip_tags_from(sv, 0, false) =~= goal);
    while i < s.len()
        invariant
            i <= s.len(),
            sv == s@,
            goal == strip_tags_from(sv, 0, false),
            out@ + strip_tags_from(sv, ix(i), in_tag) == goal,
        decreases s.len() - i,
    {
        let c = s[i];
        let ghost before = out@;
        if c == '<' {
            in_tag = true;
            i += 1;
        } else if c == '>' {
            in_tag = false;
            i += 1;
        } else if c == '&' && !in_tag {
            let mut j: usize = i + 1;
            let mut bytes: usize = 0;
            proof {
                lemma_entity_stop(sv, ix(i) + 1, 0);
            }
            while j < s.len() && !(s[j] == ';' || bytes > 8)
                invariant
                    i < j <= s.len(),
                    sv == s@,
                    bytes <= 12,
                    entity_stop(sv, ix(i) + 1, 0) == entity_stop(sv, ix(j), bytes as nat),
                decreases s.len() - j,
            {
                bytes = bytes + utf8_len_v(s[j]);
                j += 1;
            }
            let name = slice_of(&s, i + 1, j);
            push_decoded_entity(&mut out, &name);
            let next = if j < s.len() { j + 1 } else { s.len() };
            proof {
                assert(out@ + strip_tags_from(sv, next as int, false) =~= before + (decode_entity(
                    sv.subrange(ix(i) + 1, ix(j)),
                ) + strip_tags_from(sv, next as int, false)));
            }
            in_tag = false;
            i = next;
        } else if !in_tag {
            out.push(c);
            assert(out@ + strip_tags_from(sv, ix(i) + 1, false) =~= before + (seq![c] + strip_tags_from(
                sv,
                ix(i) + 1,
                false,
            )));
            i += 1;
        } else {
            i += 1;
        }
    }
    assert(out@ =~= goal);
    let toks = ws_tokens_v(&out);
    let mut text: Vec<char> = Vec::new();
    join_push_sep(&mut text, &toks, " ");
    assert(text@ =~= spec_plain_text(html@));
    from_chars(&text)
}

// ── URL rewrites and locales ───────────────────────────────────────────

pub open spec fn trim_start_slashes(s: Seq<char>) -> Seq<char>
    decreases s.len(),
{
    if s.len() > 0 && s[0] == '/' {
        trim_start_slashes(s.drop_first())
    } else {
        s
    }
}

/// A rewrite destination as a content-relative source path.
pub open spec fn spec_normalize_rewrite_path(path: Seq<char>) -> Seq<char> {
    let p = trim_start_slashes(path);
    if ends_with(p, ".md"@) || ends_with(p, "index.md"@) {
        p
    } else {
        p + ".md"@
    }
}

pub fn normalize_rewrite_path(path: &str) -> (r: String)
    ensures
        r@ == spec_normalize_rewrite_path(path@),
{
    let v = to_chars(path);
    let mut k: usize = 0;
    assert(v@.skip(0) =~= v@);
    while k < v.len() && v[k] == '/'
        invariant
            k <= v.len(),
            trim_start_slashes(v@) == trim_start_slashes(v@.skip(ix(k))),
        decreases v.len() - k,
    {
        assert(v@.skip(ix(k)).drop_first() =~= v@.skip(ix(k) + 1));
        k += 1;
    }
    let mut p = slice_of(&v, k, v.len());
    assert(p@ =~= v@.skip(ix(k)));
    if !(ends_with_str(&p, ".md") || ends_with_str(&p, "index.md")) {
        push_str(&mut p, ".md");
    }
    from_chars(&p)
}

/// Where one rewrite sends a source path: a `prefix:rest*` pattern
/// matches paths under the prefix (the rest fills `:rest*` in the
/// destination), any other pattern matches the path exactly.
pub open spec fn rewrite_dest(rel: Seq<char>, from: Seq<char>, to: Seq<char>) -> Option<Seq<char>> {
    if ends_with(from, ":rest*"@) {
        let prefix = from.take(from.len() - 6);
        if starts_with(rel, prefix) {
            Some(replace_all(to, ":rest*"@, rel.skip(prefix.len() as int)))
        } else {
            None
        }
    } else if from == rel {
        Some(to)
    } else {
        None
    }
}

/// A page's URL after the rewrites (the last matching rule wins).
pub open spec fn rewritten_url(url: Seq<char>, rel: Seq<char>, rules: Seq<(String, String)>) -> Seq<char>
    decreases rules.len(),
{
    if rules.len() == 0 {
        url
    } else {
        let prev = rewritten_url(url, rel, rules.drop_last());
        match rewrite_dest(rel, rules.last().0@, rules.last().1@) {
            Some(d) => spec_page_url(spec_normalize_rewrite_path(d)),
            None => prev,
        }
    }
}

fn rewrite_dest_v(rel: &Vec<char>, from: &String, to: &String) -> (r: Option<String>)
    ensures
        match (r, rewrite_dest(rel@, from@, to@)) {
            (Some(a), Some(b)) => a@ == b,
            (None, None) => true,
            _ => false,
        },
{
    let f = to_chars(from.as_str());
    proof {
        reveal_strlit(":rest*");
    }
    if ends_with_str(&f, ":rest*") {
        let prefix = slice_of(&f, 0, f.len() - 6);
        assert(prefix@ =~= f@.take(f@.len() - 6));
        if starts_with_v(rel, &prefix) {
            let rest = slice_of(rel, prefix.len(), rel.len());
            assert(rest@ =~= rel@.skip(prefix@.len() as int));
            let t = to_chars(to.as_str());
            let d = replace_all_v(&t, ":rest*", from_chars(&rest).as_str());
            Some(from_chars(&d))
        } else {
            None
        }
    } else if eq_str(&f, from_chars(rel).as_str()) {
        Some(to.clone())
    } else {
        None
    }
}

/// Every page's URL rewritten by the `rewrites` rules; nothing else
/// changes.
pub fn apply_rewrites(pages: &mut Vec<Page>, rules: &Vec<(String, String)>)
    ensures
        final(pages)@.len() == old(pages)@.len(),
        forall|k: int|
            0 <= k < final(pages)@.len() ==> (#[trigger] final(pages)@[k]).url@ == rewritten_url(
                old(pages)@[k].url@,
                old(pages)@[k].rel@,
                rules@,
            ) && final(pages)@[k].rel == old(pages)@[k].rel && final(pages)@[k].title == old(pages)@[k].title
                && final(pages)@[k].front == old(pages)@[k].front && final(pages)@[k].body == old(pages)@[k].body
                && final(pages)@[k].modified == old(pages)@[k].modified && final(pages)@[k].src == old(
                pages,
            )@[k].src && final(pages)@[k].locale == old(pages)@[k].locale,
{
    let ghost orig = pages@;
    let mut i: usize = 0;
    while i < pages.len()
        invariant
            i <= pages.len(),
            pages@.len() == orig.len(),
            forall|k: int|
                0 <= k < i ==> (#[trigger] pages@[k]).url@ == rewritten_url(orig[k].url@, orig[k].rel@, rules@)
                    && pages@[k].rel == orig[k].rel && pages@[k].title == orig[k].title && pages@[k].front
                    == orig[k].front && pages@[k].body == orig[k].body && pages@[k].modified == orig[k].modified
                    && pages@[k].src == orig[k].src && pages@[k].locale == orig[k].locale,
            forall|k: int| i <= k < pages@.len() ==> #[trigger] pages@[k] == orig[k],
        decreases pages.len() - i,
    {
        let rel = to_chars(pages[i].rel.as_str());
        let mut url = pages[i].url.clone();
        let mut j: usize = 0;
        assert(rules@.take(0) =~= Seq::<(String, String)>::empty());
        while j < rules.len()
            invariant
                j <= rules.len(),
                i < pages.len(),
                rel@ == orig[ix(i)].rel@,
                url@ == rewritten_url(orig[ix(i)].url@, orig[ix(i)].rel@, rules@.take(ix(j))),
            decreases rules.len() - j,
        {
            assert(rules@.take(ix(j) + 1).drop_last() =~= rules@.take(ix(j)));
            assert(rules@.take(ix(j) + 1).last() == rules@[ix(j)]);
            match rewrite_dest_v(&rel, &rules[j].0, &rules[j].1) {
                Some(d) => {
                    let n = normalize_rewrite_path(d.as_str());
                    url = page_url(n.as_str());
                },
                None => {},
            }
            j += 1;
        }
        assert(rules@.take(ix(j)) =~= rules@);
        let mut page = pages.remove(i);
        page.url = url;
        pages.insert(i, page);
        i += 1;
    }
}

/// The locale of a source path: the last configured non-root locale
/// whose directory holds it, else the page's current one.
pub open spec fn locale_of(current: Seq<char>, rel: Seq<char>, keys: Seq<(String, Locale)>) -> Seq<char>
    decreases keys.len(),
{
    if keys.len() == 0 {
        current
    } else {
        let prev = locale_of(current, rel, keys.drop_last());
        let key = keys.last().0@;
        if key != "root"@ && starts_with(rel, key + "/"@) {
            key
        } else {
            prev
        }
    }
}

/// Pages under a locale's directory (`zh/…` for `[locales.zh]`) are
/// assigned that locale.
pub fn assign_locales(pages: &mut Vec<Page>, locales: &Vec<(String, Locale)>)
    ensures
        final(pages)@.len() == old(pages)@.len(),
        forall|k: int|
            0 <= k < final(pages)@.len() ==> (#[trigger] final(pages)@[k]).locale@ == locale_of(
                old(pages)@[k].locale@,
                old(pages)@[k].rel@,
                locales@,
            ) && final(pages)@[k].rel == old(pages)@[k].rel && final(pages)@[k].url == old(pages)@[k].url,
{
    let ghost orig = pages@;
    let mut i: usize = 0;
    while i < pages.len()
        invariant
            i <= pages.len(),
            pages@.len() == orig.len(),
            forall|k: int|
                0 <= k < i ==> (#[trigger] pages@[k]).locale@ == locale_of(orig[k].locale@, orig[k].rel@, locales@)
                    && pages@[k].rel == orig[k].rel && pages@[k].url == orig[k].url,
            forall|k: int| i <= k < pages@.len() ==> #[trigger] pages@[k] == orig[k],
        decreases pages.len() - i,
    {
        let rel = to_chars(pages[i].rel.as_str());
        let mut loc = pages[i].locale.clone();
        let mut j: usize = 0;
        assert(locales@.take(0) =~= Seq::<(String, Locale)>::empty());
        while j < locales.len()
            invariant
                j <= locales.len(),
                i < pages.len(),
                rel@ == orig[ix(i)].rel@,
                loc@ == locale_of(orig[ix(i)].locale@, orig[ix(i)].rel@, locales@.take(ix(j))),
            decreases locales.len() - j,
        {
            assert(locales@.take(ix(j) + 1).drop_last() =~= locales@.take(ix(j)));
            assert(locales@.take(ix(j) + 1).last() == locales@[ix(j)]);
            let key = &locales[j].0;
            let mut dir = to_chars(key.as_str());
            dir.push('/');
            proof {
                reveal_strlit("root");
                reveal_strlit("/");
                assert(dir@ =~= key@ + "/"@);
            }
            if !eq_str(&to_chars(key.as_str()), "root") && starts_with_v(&rel, &dir) {
                loc = key.clone();
            }
            j += 1;
        }
        assert(locales@.take(ix(j)) =~= locales@);
        let mut page = pages.remove(i);
        page.locale = loc;
        pages.insert(i, page);
        i += 1;
    }
}

// ── build outcomes ─────────────────────────────────────────────────────

/// Why a site could not be loaded or built.
#[derive(Debug)]
pub enum BuildError {
    /// `theme` names no built-in palette and is not a `.css` path.
    Theme { value: String, available: String },
    /// `theme` names a `.css` file that does not exist.
    ThemeFile { path: String, value: String, available: String },
    /// Internal links that resolve to nothing.
    DeadLinks { report: String },
    Config(ConfigError),
    Content(ContentError),
    Markdown(MarkdownError),
    /// An output file or directory could not be written.
    Write { path: String, message: String },
}

/// What the `theme` setting selects.
#[derive(Debug)]
pub enum ThemeChoice {
    /// The stock look: nothing linked.
    Stock,
    /// A stylesheet of the site's own, by its path under the site dir.
    File(String),
    /// A built-in palette's CSS.
    Builtin(String),
}

/// `theme`: unset or the default palette is the stock look; a value
/// ending in `.css` is a file; any other value must name a built-in
/// palette.
pub open spec fn theme_choice_ok(theme: Option<String>, r: Result<ThemeChoice, BuildError>) -> bool {
    match theme {
        None => r matches Ok(ThemeChoice::Stock),
        Some(v) => if v@ == DEFAULT_NAME@ {
            r matches Ok(ThemeChoice::Stock)
        } else if ends_with(v@, ".css"@) {
            r matches Ok(ThemeChoice::File(f)) && f@ == v@
        } else {
            match spec_palette_css(v@) {
                Some(c) => r matches Ok(ThemeChoice::Builtin(t)) && t@ == c,
                None => r matches Err(BuildError::Theme { value, available }) && value@ == v@
                    && available@ == available_text(),
            }
        },
    }
}

pub fn select_theme(theme: &Option<String>) -> (r: Result<ThemeChoice, BuildError>)
    ensures
        theme_choice_ok(*theme, r),
{
    match theme {
        None => Ok(ThemeChoice::Stock),
        Some(v) => {
            let vv = to_chars(v.as_str());
            proof {
                reveal_strlit(".css");
            }
            if eq_str(&vv, DEFAULT_NAME) {
                Ok(ThemeChoice::Stock)
            } else if ends_with_str(&vv, ".css") {
                Ok(ThemeChoice::File(v.clone()))
            } else {
                match css(v.as_str()) {
                    Some(c) => Ok(ThemeChoice::Builtin(String::from_str(c))),
                    None => Err(BuildError::Theme { value: v.clone(), available: available() }),
                }
            }
        },
    }
}

/// Dead-link candidates minus those `ignoreDeadLinks` prefixes cover.
pub open spec fn not_ignored(dead: Seq<Seq<char>>, setting: IgnoreDeadLinks) -> Seq<Seq<char>> {
    match setting {
        IgnoreDeadLinks::IgnorePrefixes(ps) => dead.filter(
            |l: Seq<char>| !(exists|i: int| 0 <= i < ps@.len() && starts_with(l, (#[trigger] ps@[i])@)),
        ),
        _ => dead,
    }
}

fn starts_with_any(l: &Vec<char>, ps: &Vec<String>) -> (b: bool)
    ensures
        b == (exists|i: int| 0 <= i < ps@.len() && starts_with(l@, (#[trigger] ps@[i])@)),
{
    let mut i: usize = 0;
    while i < ps.len()
        invariant
            i <= ps.len(),
            forall|k: int| 0 <= k < i ==> !starts_with(l@, (#[trigger] ps@[k])@),
        decreases ps.len() - i,
    {
        if starts_with_v(l, &to_chars(ps[i].as_str())) {
            return true;
        }
        i += 1;
    }
    false
}

pub fn filter_ignored(dead: Vec<String>, setting: &IgnoreDeadLinks) -> (r: Vec<String>)
    ensures
        r.deep_view() == not_ignored(dead.deep_view(), *setting),
{
    match setting {
        IgnoreDeadLinks::IgnorePrefixes(ps) => {
            let ghost dv = dead.deep_view();
            let ghost keep = |l: Seq<char>| !(exists|i: int| 0 <= i < ps@.len() && starts_with(l, (#[trigger] ps@[i])@));
            let mut out: Vec<String> = Vec::new();
            let mut i: usize = 0;
            proof {
                reveal(Seq::filter);
                assert(dv.take(0) =~= Seq::<Seq<char>>::empty());
                assert(out.deep_view() =~= dv.take(0).filter(keep));
            }
            while i < dead.len()
                invariant
                    i <= dead.len(),
                    dv == dead.deep_view(),
                    keep == (|l: Seq<char>| !(exists|i: int| 0 <= i < ps@.len() && starts_with(l, (#[trigger] ps@[i])@))),
                    out.deep_view() == dv.take(ix(i)).filter(keep),
                decreases dead.len() - i,
            {
                proof {
                    reveal(Seq::filter);
                    assert(dv.take(ix(i) + 1).drop_last() =~= dv.take(ix(i)));
                }
                assert(dv[ix(i)] == dead@[ix(i)]@);
                if !starts_with_any(&to_chars(dead[i].as_str()), ps) {
                    let ghost before = out.deep_view();
                    out.push(dead[i].clone());
                    assert(out.deep_view() =~= before.push(dv[ix(i)]));
                }
                i += 1;
            }
            assert(dv.take(ix(i)) =~= dv);
            out
        },
        _ => dead,
    }
}

/// Whether the build fails on dead links (`ignoreDeadLinks = true`
/// silences the report).
pub fn reports_dead_links(setting: &IgnoreDeadLinks) -> (b: bool)
    ensures
        b == !(*setting is IgnoreAll),
{
    !matches!(setting, IgnoreDeadLinks::IgnoreAll)
}

pub open spec fn report_lines(broken: Seq<(String, String)>) -> Seq<Seq<char>> {
    Seq::new(broken.len(), |i: int| "  "@ + broken[i].0@ + " → "@ + broken[i].1@)
}

/// The dead-link failure report: the count, then one `  page → link`
/// line per link that is neither a page nor an output file.
pub open spec fn spec_dead_link_report(broken: Seq<(String, String)>) -> Seq<char> {
    dec(broken.len()) + " dead link(s) found (ignoreDeadLinks silences this):\n"@ + join_with(
        report_lines(broken),
        "\n"@,
    )
}

pub fn dead_link_report(broken: &Vec<(String, String)>) -> (r: String)
    ensures
        r@ == spec_dead_link_report(broken@),
{
    let ghost lines = report_lines(broken@);
    let mut out: Vec<char> = Vec::new();
    push_dec(&mut out, broken.len());
    push_str(&mut out, " dead link(s) found (ignoreDeadLinks silences this):\n");
    let ghost head = out@;
    let mut i: usize = 0;
    assert(out@ =~= head + join_with(lines.take(0), "\n"@));
    while i < broken.len()
        invariant
            i <= broken.len(),
            lines == report_lines(broken@),
            out@ == head + join_with(lines.take(ix(i)), "\n"@),
        decreases broken.len() - i,
    {
        let ghost before = out@;
        if i > 0 {
            push_str(&mut out, "\n");
        }
        push_str(&mut out, "  ");
        push_str(&mut out, broken[i].0.as_str());
        push_str(&mut out, " → ");
        push_str(&mut out, broken[i].1.as_str());
        proof {
            let t = lines.take(ix(i) + 1);
            assert(t.drop_last() =~= lines.take(ix(i)));
            assert(t.last() == lines[ix(i)]);
            if i == 0 {
                assert(join_with(t, "\n"@) == t[0]);
                assert(out@ =~= head + join_with(t, "\n"@));
            } else {
                assert(out@ =~= head + join_with(t, "\n"@));
            }
        }
        i += 1;
    }
    assert(lines.take(ix(i)) =~= lines);
    from_chars(&out)
}

/// A page's title in the search index: the site title on the home page
/// (when set), else the page title.
pub fn search_title(config: &SiteConfig, page: &Page) -> (r: String)
    ensures
        r@ == (if page.front.layout matches Some(l) && l@ == "home"@ {
            match config.title {
                Some(t) => t@,
                None => page.title@,
            }
        } else {
            page.title@
        }),
{
    if page.is_home() {
        match &config.title {
            Some(t) => t.clone(),
            None => page.title.clone(),
        }
    } else {
        page.title.clone()
    }
}

/// The 404 page's texts (title, quote, link text) with their defaults.
pub fn not_found_texts(config: &SiteConfig) -> (r: (String, String, String))
    ensures
        r.0@ == (match config.not_found {
            Some(nf) => match nf.title {
                Some(t) => t@,
                None => "Page not found"@,
            },
            None => "Page not found"@,
        }),
        r.1@ == (match config.not_found {
            Some(nf) => match nf.quote {
                Some(t) => t@,
                None => "The page you are looking for does not exist."@,
            },
            None => "The page you are looking for does not exist."@,
        }),
        r.2@ == (match config.not_found {
            Some(nf) => match nf.link_text {
                Some(t) => t@,
                None => "Return home"@,
            },
            None => "Return home"@,
        }),
{
    let pick = |o: &Option<String>, d: &str| -> (s: String)
        ensures
            s@ == (match o {
                Some(t) => t@,
                None => d@,
            }),
        {
            match o {
                Some(t) => t.clone(),
                None => String::from_str(d),
            }
        };
    match &config.not_found {
        Some(nf) => (
            pick(&nf.title, "Page not found"),
            pick(&nf.quote, "The page you are looking for does not exist."),
            pick(&nf.link_text, "Return home"),
        ),
        None => (
            String::from_str("Page not found"),
            String::from_str("The page you are looking for does not exist."),
            String::from_str("Return home"),
        ),
    }
}

// ── page chrome ────────────────────────────────────────────────────────

/// Where the outline aside goes: `None` hidden (`aside = false`),
/// `Some(true)` on the left, `Some(false)` on the right (the default).
pub fn aside_position(config: &SiteConfig) -> (r: Option<bool>)
    ensures
        r == (match config.aside {
            Some(AsideSetting::Show(false)) => None,
            Some(AsideSetting::Left) => Some(true),
            _ => Some(false),
        }),
{
    match config.aside {
        Some(AsideSetting::Show(false)) => None,
        Some(AsideSetting::Left) => Some(true),
        _ => Some(false),
    }
}

/// A page's meta description: its own, else its locale's, else the
/// site's, else empty.
pub open spec fn spec_page_description(config: SiteConfig, page: Page) -> Seq<char> {
    match page.front.description {
        Some(d) => d@,
        None => match (match locale_entry(config.locales@, page.locale@) {
            Some(l) => l.description,
            None => None,
        }) {
            Some(d) => d@,
            None => match config.description {
                Some(d) => d@,
                None => Seq::empty(),
            },
        },
    }
}

pub fn page_description(config: &SiteConfig, page: &Page) -> (r: String)
    ensures
        r@ == spec_page_description(*config, *page),
{
    match &page.front.description {
        Some(d) => d.clone(),
        None => {
            let own = match find_locale(&config.locales, page.locale.as_str()) {
                Some(l) => match &l.description {
                    Some(d) => Some(d.clone()),
                    None => None,
                },
                None => None,
            };
            match own {
                Some(d) => d,
                None => match &config.description {
                    Some(d) => d.clone(),
                    None => String::new(),
                },
            }
        },
    }
}

} // verus!
