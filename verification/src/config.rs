//! Site configuration: a static mirror of VitePress's `themeConfig`
//! schema (keys keep VitePress's camelCase names in the TOML file).
//! This module holds the configuration model, its defaults and the rules
//! that interpret it; reading and parsing the TOML file happens at the
//! program's edge.

use vstd::prelude::*;

use crate::text::{eq_str, spec_to_uppercase, to_chars, upper_v, from_chars, starts_with, ends_with, starts_with_str, ends_with_str};

verus! {

broadcast use vstd::string::group_string_axioms;

/// A fresh `String` holding a literal.
fn lit(s: &str) -> (r: String)
    ensures
        r@ == s@,
{
    String::from_str(s)
}

pub fn default_lang() -> (r: String)
    ensures
        r@ == "en"@,
{
    lit("en")
}

pub fn default_base() -> (r: String)
    ensures
        r@ == "/"@,
{
    lit("/")
}

pub fn default_outline_label() -> (r: String)
    ensures
        r@ == "On this page"@,
{
    lit("On this page")
}

pub fn default_light_mode_switch_title() -> (r: String)
    ensures
        r@ == "Switch to light theme"@,
{
    lit("Switch to light theme")
}

pub fn default_dark_mode_switch_title() -> (r: String)
    ensures
        r@ == "Switch to dark theme"@,
{
    lit("Switch to dark theme")
}

pub fn default_sidebar_menu_label() -> (r: String)
    ensures
        r@ == "Menu"@,
{
    lit("Menu")
}

pub fn default_lang_menu_label() -> (r: String)
    ensures
        r@ == "Change language"@,
{
    lit("Change language")
}

pub fn default_nav_menu_label() -> (r: String)
    ensures
        r@ == "Main Navigation"@,
{
    lit("Main Navigation")
}

pub fn default_mobile_menu_label() -> (r: String)
    ensures
        r@ == "Menu"@,
{
    lit("Menu")
}

pub fn default_true() -> (b: bool)
    ensures
        b,
{
    true
}

pub fn default_src_dir() -> (r: String)
    ensures
        r@ == "content"@,
{
    lit("content")
}

pub fn default_last_updated_text() -> (r: String)
    ensures
        r@ == "Last updated"@,
{
    lit("Last updated")
}

pub fn default_return_to_top() -> (r: String)
    ensures
        r@ == "Return to top"@,
{
    lit("Return to top")
}

pub fn default_dark_mode_switch_label() -> (r: String)
    ensures
        r@ == "Appearance"@,
{
    lit("Appearance")
}

pub fn default_skip_to_content() -> (r: String)
    ensures
        r@ == "Skip to content"@,
{
    lit("Skip to content")
}

pub fn default_search_button_text() -> (r: String)
    ensures
        r@ == "Search"@,
{
    lit("Search")
}

pub fn default_search_placeholder() -> (r: String)
    ensures
        r@ == "Search docs"@,
{
    lit("Search docs")
}

pub fn default_search_no_results() -> (r: String)
    ensures
        r@ == "No results for \"{q}\""@,
{
    lit("No results for \"{q}\"")
}

pub fn default_search_reset() -> (r: String)
    ensures
        r@ == "Clear"@,
{
    lit("Clear")
}

pub fn default_search_navigate() -> (r: String)
    ensures
        r@ == "to navigate"@,
{
    lit("to navigate")
}

pub fn default_search_select() -> (r: String)
    ensures
        r@ == "to select"@,
{
    lit("to select")
}

pub fn default_search_close() -> (r: String)
    ensures
        r@ == "to close"@,
{
    lit("to close")
}

pub fn default_light_theme() -> (r: String)
    ensures
        r@ == "github-light"@,
{
    lit("github-light")
}

pub fn default_dark_theme() -> (r: String)
    ensures
        r@ == "github-dark"@,
{
    lit("github-dark")
}

/// A navbar entry: `{ text, link, activeMatch }` (plain link) or
/// `{ text, items }` (dropdown).
#[derive(Debug, PartialEq)]
pub struct NavItem {
    pub text: String,
    /// Target URL for plain link items; absent on dropdown items.
    pub link: Option<String>,
    /// URL prefix overriding link-based active matching.
    pub active_match: Option<String>,
    /// Dropdown entries.
    pub items: Vec<NavItem>,
    pub target: Option<String>,
    pub rel: Option<String>,
}

/// A sidebar node: leaf (`link`) or group (`items`); `collapsed` is
/// VitePress's tri-state — `true` starts collapsed, `false` starts
/// expanded with a caret, absent = not collapsible.
#[derive(Debug, PartialEq)]
pub struct SidebarItem {
    pub text: String,
    pub link: Option<String>,
    pub items: Vec<SidebarItem>,
    pub collapsed: Option<bool>,
    pub base: Option<String>,
    /// Custom text shown when this item is a prev/next pager target.
    pub doc_footer_text: Option<String>,
    pub target: Option<String>,
    pub rel: Option<String>,
}

/// One path-keyed sidebar: `items` links resolve against `base` when set.
#[derive(Debug, PartialEq)]
pub struct SidebarSection {
    pub base: Option<String>,
    pub items: Vec<SidebarItem>,
}

/// `sidebar`: absent (derived from the content tree), one array for the
/// whole site, or sections keyed by URL prefix (longest prefix wins).
/// The keyed form holds (prefix, section) pairs with distinct prefixes,
/// in key order.
#[derive(Debug, PartialEq)]
pub enum Sidebar {
    Auto,
    Items(Vec<SidebarItem>),
    Sections(Vec<(String, SidebarSection)>),
}

/// A navbar social icon: a known name or an inline `svg` string.
#[derive(Debug, Clone, PartialEq)]
pub enum SocialIcon {
    Name(String),
    Svg { svg: String },
}

#[derive(Debug, Clone, PartialEq)]
pub struct SocialLink {
    pub icon: SocialIcon,
    pub link: String,
    /// Accessible label override (default: the icon's name).
    pub aria_label: Option<String>,
    /// Link `target` override (default `_blank`).
    pub target: Option<String>,
}

/// Logo / hero images: a path, `{ src, alt }`, or a `{ light, dark }` pair.
#[derive(Debug, Clone, PartialEq)]
pub enum ThemeableImage {
    Simple(String),
    Detailed { src: String, alt: Option<String> },
    Dual { light: String, dark: String, alt: Option<String> },
}

/// `siteTitle`: a string override or `false` to hide.
#[derive(Debug, Clone, PartialEq)]
pub enum SiteTitleSetting {
    Text(String),
    Hide(bool),
}

/// `titleTemplate`: a `":title …"` template or `false` (no suffix).
#[derive(Debug, Clone, PartialEq)]
pub enum TitleTemplate {
    Tmpl(String),
    Off(bool),
}

#[derive(Debug, Clone, PartialEq)]
pub struct EditLink {
    /// URL template; `:path` is replaced with the page's source path.
    pub pattern: String,
    pub text: Option<String>,
}

#[derive(Debug, Clone, PartialEq)]
pub struct Footer {
    pub message: Option<String>,
    pub copyright: Option<String>,
}

/// A single heading level or a `[min, max]` pair (default h2–h3).
#[derive(Debug, Clone, Copy, PartialEq, Eq)]
pub enum OutlineLevel {
    Single(u8),
    Range((u8, u8)),
}

#[derive(Debug, Clone, PartialEq)]
pub struct Outline {
    pub level: Option<OutlineLevel>,
    pub label: String,
}

impl Default for Outline {
    fn default() -> (r: Self)
        ensures
            r.level is None,
            r.label@ == "On this page"@,
    {
        Outline { level: None, label: default_outline_label() }
    }
}

/// The `outline` setting: `false` (no outline), a bare level, or the
/// `{ level, label }` table.
#[derive(Debug, Clone, PartialEq)]
pub enum OutlineConfig {
    Off(bool),
    Level(OutlineLevel),
    Full(Outline),
}

impl Default for OutlineConfig {
    fn default() -> (r: Self)
        ensures
            r matches OutlineConfig::Full(o) && o.level is None && o.label@ == "On this page"@,
    {
        OutlineConfig::Full(Outline::default())
    }
}

impl OutlineConfig {
    /// Outline shown unless set to `false`.
    pub fn enabled(&self) -> (b: bool)
        ensures
            b == !(self matches OutlineConfig::Off(false)),
    {
        match self {
            OutlineConfig::Off(v) => *v,
            _ => true,
        }
    }

    /// The outline title: the table's label, else the default.
    pub fn label(&self) -> (r: String)
        ensures
            r@ == (match self {
                OutlineConfig::Full(o) => o.label@,
                _ => "On this page"@,
            }),
    {
        match self {
            OutlineConfig::Full(o) => o.label.clone(),
            _ => default_outline_label(),
        }
    }

    /// The configured heading level(s), if any.
    pub fn level(&self) -> (r: Option<OutlineLevel>)
        ensures
            r == (match self {
                OutlineConfig::Off(_) => None,
                OutlineConfig::Level(l) => Some(*l),
                OutlineConfig::Full(o) => o.level,
            }),
    {
        match self {
            OutlineConfig::Off(_) => None,
            OutlineConfig::Level(l) => Some(*l),
            OutlineConfig::Full(o) => o.level,
        }
    }
}

/// Only local search (documents JSON + modal) exists.
#[derive(Debug, Clone, Copy, PartialEq, Eq)]
pub enum SearchProvider {
    Local,
}

/// Translatable local-search strings; `{q}` in `no_results_text` is the
/// query placeholder.
#[derive(Debug, Clone, PartialEq)]
pub struct SearchTranslations {
    pub button_text: String,
    pub button_aria_label: String,
    pub placeholder: String,
    pub no_results_text: String,
    pub reset_button_title: String,
    pub navigate_text: String,
    pub select_text: String,
    pub close_text: String,
}

impl Default for SearchTranslations {
    fn default() -> (r: Self)
        ensures
            r.button_text@ == "Search"@,
            r.button_aria_label@ == "Search"@,
            r.placeholder@ == "Search docs"@,
            r.no_results_text@ == "No results for \"{q}\""@,
            r.reset_button_title@ == "Clear"@,
            r.navigate_text@ == "to navigate"@,
            r.select_text@ == "to select"@,
            r.close_text@ == "to close"@,
    {
        SearchTranslations {
            button_text: default_search_button_text(),
            button_aria_label: default_search_button_text(),
            placeholder: default_search_placeholder(),
            no_results_text: default_search_no_results(),
            reset_button_title: default_search_reset(),
            navigate_text: default_search_navigate(),
            select_text: default_search_select(),
            close_text: default_search_close(),
        }
    }
}

#[derive(Debug, Clone, PartialEq)]
pub struct Search {
    pub provider: SearchProvider,
    pub translations: SearchTranslations,
}

/// The syntax-highlighting theme pair.
#[derive(Debug, Clone, PartialEq)]
pub struct SyntaxThemes {
    pub light: String,
    pub dark: String,
}

impl Default for SyntaxThemes {
    fn default() -> (r: Self)
        ensures
            r.light@ == "github-light"@,
            r.dark@ == "github-dark"@,
    {
        SyntaxThemes { light: default_light_theme(), dark: default_dark_theme() }
    }
}

/// Dark-mode behavior: toggleable (light or dark by default), light
/// only, always dark, always following the system.
#[derive(Debug, Clone, Copy, PartialEq, Eq)]
pub enum Appearance {
    Toggleable { default_dark: bool },
    LightOnly,
    ForceDark,
    ForceAuto,
}

impl Default for Appearance {
    fn default() -> (r: Self)
        ensures
            r == (Appearance::Toggleable { default_dark: false }),
    {
        Appearance::Toggleable { default_dark: false }
    }
}

/// How an `appearance` word maps to a setting: `dark`, `force` /
/// `force-dark`, `force-auto`; anything else is rejected.
pub open spec fn spec_appearance_word(w: Seq<char>) -> Option<Appearance> {
    if w == "dark"@ {
        Some(Appearance::Toggleable { default_dark: true })
    } else if w == "force"@ || w == "force-dark"@ {
        Some(Appearance::ForceDark)
    } else if w == "force-auto"@ {
        Some(Appearance::ForceAuto)
    } else {
        None
    }
}

impl Appearance {
    /// Should the navbar toggle switch render at all?
    pub fn toggleable(&self) -> (b: bool)
        ensures
            b == (self is Toggleable),
    {
        match self {
            Appearance::Toggleable { .. } => true,
            _ => false,
        }
    }

    /// `appearance = true` / `false`.
    pub fn from_bool(b: bool) -> (r: Appearance)
        ensures
            r == (if b {
                Appearance::Toggleable { default_dark: false }
            } else {
                Appearance::LightOnly
            }),
    {
        if b {
            Appearance::Toggleable { default_dark: false }
        } else {
            Appearance::LightOnly
        }
    }

    /// `appearance = "…"`; None for an unknown word.
    pub fn from_word(w: &str) -> (r: Option<Appearance>)
        ensures
            r == spec_appearance_word(w@),
    {
        let v = to_chars(w);
        if eq_str(&v, "dark") {
            Some(Appearance::Toggleable { default_dark: true })
        } else if eq_str(&v, "force") || eq_str(&v, "force-dark") {
            Some(Appearance::ForceDark)
        } else if eq_str(&v, "force-auto") {
            Some(Appearance::ForceAuto)
        } else {
            None
        }
    }
}

/// `ignoreDeadLinks`: `true` (ignore all), `"localhostLinks"`, or a list
/// of link prefixes; absent/`false` keeps checking on.
#[derive(Debug, Clone, PartialEq)]
pub enum IgnoreDeadLinks {
    Check,
    IgnoreAll,
    IgnoreLocalhost,
    IgnorePrefixes(Vec<String>),
}

impl Default for IgnoreDeadLinks {
    fn default() -> (r: Self)
        ensures
            r is Check,
    {
        IgnoreDeadLinks::Check
    }
}

impl IgnoreDeadLinks {
    /// `ignoreDeadLinks = true` / `false`.
    pub fn from_bool(b: bool) -> (r: IgnoreDeadLinks)
        ensures
            b ==> r is IgnoreAll,
            !b ==> r is Check,
    {
        if b {
            IgnoreDeadLinks::IgnoreAll
        } else {
            IgnoreDeadLinks::Check
        }
    }

    /// `ignoreDeadLinks = "…"`: only `localhostLinks` is known.
    pub fn from_word(w: &str) -> (r: Option<IgnoreDeadLinks>)
        ensures
            w@ == "localhostLinks"@ ==> r matches Some(IgnoreDeadLinks::IgnoreLocalhost),
            w@ != "localhostLinks"@ ==> r is None,
    {
        let v = to_chars(w);
        if eq_str(&v, "localhostLinks") {
            Some(IgnoreDeadLinks::IgnoreLocalhost)
        } else {
            None
        }
    }
}

/// `[sitemap]` — emits sitemap.xml.
#[derive(Debug, Clone, PartialEq)]
pub struct Sitemap {
    pub hostname: String,
}

/// One `[[head]]` tag: `tag`, attributes (distinct names, in name
/// order), optional `children`.
#[derive(Debug, Clone, PartialEq)]
pub struct HeadTag {
    pub tag: String,
    pub attrs: Vec<(String, String)>,
    pub children: Option<String>,
}

#[derive(Debug, Clone, PartialEq)]
pub struct ImageOptions {
    /// Add `loading="lazy"` to content images.
    pub lazy_loading: bool,
}

impl Default for ImageOptions {
    fn default() -> (r: Self)
        ensures
            !r.lazy_loading,
    {
        ImageOptions { lazy_loading: false }
    }
}

/// A custom `::: name` container.
#[derive(Debug, Clone, PartialEq)]
pub struct CustomContainer {
    pub name: String,
    /// Builtin kind whose styling is reused (default: tip).
    pub kind: Option<String>,
    /// Title row label (default: the name uppercased).
    pub label: Option<String>,
}

/// Container title labels and custom container kinds.
#[derive(Debug, Clone, PartialEq)]
pub struct ContainerOptions {
    pub tip_label: Option<String>,
    pub warning_label: Option<String>,
    pub danger_label: Option<String>,
    pub note_label: Option<String>,
    pub info_label: Option<String>,
    pub important_label: Option<String>,
    pub caution_label: Option<String>,
    pub details_label: Option<String>,
    pub custom: Vec<CustomContainer>,
}

impl Default for ContainerOptions {
    fn default() -> (r: Self)
        ensures
            r.tip_label is None,
            r.warning_label is None,
            r.danger_label is None,
            r.note_label is None,
            r.info_label is None,
            r.important_label is None,
            r.caution_label is None,
            r.details_label is None,
            r.custom@.len() == 0,
    {
        ContainerOptions {
            tip_label: None,
            warning_label: None,
            danger_label: None,
            note_label: None,
            info_label: None,
            important_label: None,
            caution_label: None,
            details_label: None,
            custom: Vec::new(),
        }
    }
}

/// The configured label of a builtin container kind, if any.
pub open spec fn configured_label(o: ContainerOptions, kind: Seq<char>) -> Option<Seq<char>> {
    let pick = |x: Option<String>|
        match x {
            Some(s) => Some(s@),
            None => None,
        };
    if kind == "tip"@ {
        pick(o.tip_label)
    } else if kind == "warning"@ {
        pick(o.warning_label)
    } else if kind == "danger"@ {
        pick(o.danger_label)
    } else if kind == "note"@ {
        pick(o.note_label)
    } else if kind == "info"@ {
        pick(o.info_label)
    } else if kind == "important"@ {
        pick(o.important_label)
    } else if kind == "caution"@ {
        pick(o.caution_label)
    } else if kind == "details"@ {
        match o.details_label {
            Some(s) => Some(s@),
            None => Some("Details"@),
        }
    } else {
        None
    }
}

impl ContainerOptions {
    /// Display label for a container kind: the configured label, else
    /// `Details` for details blocks, else the kind uppercased.
    pub fn label_for(&self, kind: &str) -> (r: String)
        ensures
            r@ == (match configured_label(*self, kind@) {
                Some(l) => l,
                None => spec_to_uppercase(kind@),
            }),
    {
        let k = to_chars(kind);
        let chosen: Option<String> = if eq_str(&k, "tip") {
            self.tip_label.clone()
        } else if eq_str(&k, "warning") {
            self.warning_label.clone()
        } else if eq_str(&k, "danger") {
            self.danger_label.clone()
        } else if eq_str(&k, "note") {
            self.note_label.clone()
        } else if eq_str(&k, "info") {
            self.info_label.clone()
        } else if eq_str(&k, "important") {
            self.important_label.clone()
        } else if eq_str(&k, "caution") {
            self.caution_label.clone()
        } else if eq_str(&k, "details") {
            match &self.details_label {
                Some(s) => Some(s.clone()),
                None => Some(lit("Details")),
            }
        } else {
            None
        };
        match chosen {
            Some(s) => s,
            None => {
                let u = upper_v(&k);
                from_chars(&u)
            },
        }
    }
}

/// Markdown feature switches (`[markdown]`).
#[derive(Debug, Clone, PartialEq)]
pub struct Markdown {
    /// Number the lines of every code block.
    pub line_numbers: bool,
    /// Render the hover copy button on code blocks.
    pub code_copy_button: bool,
    /// Render `$…$` / `$$…$$` TeX via client-side MathJax.
    pub math: bool,
    pub image: ImageOptions,
    pub container: ContainerOptions,
}

impl Default for Markdown {
    fn default() -> (r: Self)
        ensures
            !r.line_numbers,
            r.code_copy_button,
            !r.math,
            !r.image.lazy_loading,
            r.container.custom@.len() == 0,
            r.container.details_label is None,
    {
        Markdown {
            line_numbers: false,
            code_copy_button: default_true(),
            math: false,
            image: ImageOptions::default(),
            container: ContainerOptions::default(),
        }
    }
}

/// `[docFooter]` prev/next pager label: text, or `false` to disable.
#[derive(Debug, Clone, PartialEq)]
pub enum PagerLabel {
    Text(String),
    Off(bool),
}

#[derive(Debug, Clone, PartialEq)]
pub struct DocFooter {
    pub prev: Option<PagerLabel>,
    pub next: Option<PagerLabel>,
}

/// `[notFound]` — 404 page texts.
#[derive(Debug, Clone, PartialEq)]
pub struct NotFound {
    pub title: Option<String>,
    pub quote: Option<String>,
    pub link_text: Option<String>,
}

/// One locale (`[locales.root]`, `[locales.zh]`, …).
#[derive(Debug, Clone, PartialEq)]
pub struct Locale {
    /// Display name in the language switcher.
    pub label: String,
    pub lang: Option<String>,
    pub title: Option<String>,
    pub description: Option<String>,
}

/// `aside`: shown (`true`, default) or hidden (`false`), or on the left.
#[derive(Debug, Clone, Copy, PartialEq, Eq)]
pub enum AsideSetting {
    Show(bool),
    Left,
}

/// The whole site configuration.
#[derive(Debug, PartialEq)]
pub struct SiteConfig {
    pub title: Option<String>,
    pub description: Option<String>,
    /// Root language (`en`, `zh-TW`, …).
    pub lang: String,
    /// Deployment base path; must start and end with `/`.
    pub base: String,
    pub last_updated: bool,
    pub nav: Vec<NavItem>,
    pub sidebar: Sidebar,
    pub social_links: Vec<SocialLink>,
    pub edit_link: Option<EditLink>,
    pub footer: Option<Footer>,
    pub outline: OutlineConfig,
    pub aside: Option<AsideSetting>,
    pub graded_containers: bool,
    pub search: Option<Search>,
    pub logo: Option<ThemeableImage>,
    pub site_title: Option<SiteTitleSetting>,
    /// `srcExclude` globs.
    pub src_exclude: Vec<String>,
    pub ask_ai_url: Option<String>,
    pub markdown: Markdown,
    /// UI theme: built-in name or a path to a CSS file.
    pub theme: Option<String>,
    pub syntax: SyntaxThemes,
    pub appearance: Appearance,
    pub ignore_dead_links: IgnoreDeadLinks,
    pub sitemap: Option<Sitemap>,
    pub head: Vec<HeadTag>,
    pub title_template: Option<TitleTemplate>,
    pub src_dir: String,
    pub doc_footer: Option<DocFooter>,
    pub not_found: Option<NotFound>,
    pub last_updated_text: String,
    pub return_to_top_label: String,
    pub dark_mode_switch_label: String,
    pub light_mode_switch_title: String,
    pub dark_mode_switch_title: String,
    pub sidebar_menu_label: String,
    pub lang_menu_label: String,
    pub nav_menu_label: String,
    pub mobile_menu_label: String,
    pub skip_to_content_label: String,
    /// URL rewrites: (source pattern, destination template), distinct
    /// patterns in key order.
    pub rewrites: Vec<(String, String)>,
    /// Locales: (key, locale), distinct keys in key order.
    pub locales: Vec<(String, Locale)>,
}

impl Default for SiteConfig {
    /// What an empty configuration file means.
    fn default() -> (r: Self)
        ensures
            r.title is None,
            r.description is None,
            r.lang@ == "en"@,
            r.base@ == "/"@,
            !r.last_updated,
            r.nav@.len() == 0,
            r.sidebar is Auto,
            r.social_links@.len() == 0,
            r.edit_link is None,
            r.footer is None,
            r.outline matches OutlineConfig::Full(o) && o.level is None && o.label@
                == "On this page"@,
            r.aside is None,
            !r.graded_containers,
            r.search is None,
            r.logo is None,
            r.site_title is None,
            r.src_exclude@.len() == 0,
            r.ask_ai_url is None,
            !r.markdown.line_numbers && r.markdown.code_copy_button && !r.markdown.math,
            r.theme is None,
            r.syntax.light@ == "github-light"@ && r.syntax.dark@ == "github-dark"@,
            r.appearance == (Appearance::Toggleable { default_dark: false }),
            r.ignore_dead_links is Check,
            r.sitemap is None,
            r.head@.len() == 0,
            r.title_template is None,
            r.src_dir@ == "content"@,
            r.doc_footer is None,
            r.not_found is None,
            r.last_updated_text@ == "Last updated"@,
            r.return_to_top_label@ == "Return to top"@,
            r.dark_mode_switch_label@ == "Appearance"@,
            r.light_mode_switch_title@ == "Switch to light theme"@,
            r.dark_mode_switch_title@ == "Switch to dark theme"@,
            r.sidebar_menu_label@ == "Menu"@,
            r.lang_menu_label@ == "Change language"@,
            r.nav_menu_label@ == "Main Navigation"@,
            r.mobile_menu_label@ == "Menu"@,
            r.skip_to_content_label@ == "Skip to content"@,
            r.rewrites@.len() == 0,
            r.locales@.len() == 0,
    {
        SiteConfig {
            title: None,
            description: None,
            lang: default_lang(),
            base: default_base(),
            last_updated: false,
            nav: Vec::new(),
            sidebar: Sidebar::Auto,
            social_links: Vec::new(),
            edit_link: None,
            footer: None,
            outline: OutlineConfig::default(),
            aside: None,
            graded_containers: false,
            search: None,
            logo: None,
            site_title: None,
            src_exclude: Vec::new(),
            ask_ai_url: None,
            markdown: Markdown::default(),
            theme: None,
            syntax: SyntaxThemes::default(),
            appearance: Appearance::default(),
            ignore_dead_links: IgnoreDeadLinks::default(),
            sitemap: None,
            head: Vec::new(),
            title_template: None,
            src_dir: default_src_dir(),
            doc_footer: None,
            not_found: None,
            last_updated_text: default_last_updated_text(),
            return_to_top_label: default_return_to_top(),
            dark_mode_switch_label: default_dark_mode_switch_label(),
            light_mode_switch_title: default_light_mode_switch_title(),
            dark_mode_switch_title: default_dark_mode_switch_title(),
            sidebar_menu_label: default_sidebar_menu_label(),
            lang_menu_label: default_lang_menu_label(),
            nav_menu_label: default_nav_menu_label(),
            mobile_menu_label: default_mobile_menu_label(),
            skip_to_content_label: default_skip_to_content(),
            rewrites: Vec::new(),
            locales: Vec::new(),
        }
    }
}

/// Errors loading or validating the configuration.
#[derive(Debug, Clone, PartialEq)]
pub enum ConfigError {
    /// The file could not be read.
    Read { path: String, message: String },
    /// The file is not a valid configuration.
    Parse { path: String, message: String },
    /// `base` does not start and end with `/`.
    Base { value: String },
}

/// A usable `base`: starts and ends with `/`.
pub open spec fn valid_base(base: Seq<char>) -> bool {
    starts_with(base, "/"@) && ends_with(base, "/"@)
}

impl SiteConfig {
    /// The configuration file's name inside a site directory.
    pub fn config_file() -> (r: String)
        ensures
            r@ == "rustpress.toml"@,
    {
        lit("rustpress.toml")
    }

    /// Checks the loaded configuration: `base` must start and end with
    /// `/`.
    pub fn validate(&self) -> (r: Result<(), ConfigError>)
        ensures
            r is Ok <==> valid_base(self.base@),
            r matches Err(e) ==> (e matches ConfigError::Base { value } && value@ == self.base@),
    {
        let b = to_chars(self.base.as_str());
        if !starts_with_str(&b, "/") || !ends_with_str(&b, "/") {
            return Err(ConfigError::Base { value: self.base.clone() });
        }
        Ok(())
    }
}


/// An `appearance` word starts the site dark with the switch shown
/// exactly when it is `dark`, no word makes the switch start light, and
/// no word gives what a boolean setting gives.
pub proof fn law_dark_word_starts_dark(w: Seq<char>, b: bool)
    ensures
        (spec_appearance_word(w) == Some(Appearance::Toggleable { default_dark: true })) <==> (w == "dark"@),
        spec_appearance_word(w) != Some(Appearance::Toggleable { default_dark: false }),
        spec_appearance_word(w) != Some(
            if b {
                Appearance::Toggleable { default_dark: false }
            } else {
                Appearance::LightOnly
            },
        ),
{
    reveal_strlit("dark");
    reveal_strlit("force");
    reveal_strlit("force-dark");
    reveal_strlit("force-auto");
    assert("dark"@ != "force"@) by { assert("dark"@.len() != "force"@.len()); }
    assert("dark"@ != "force-dark"@) by { assert("dark"@.len() != "force-dark"@.len()); }
    assert("dark"@ != "force-auto"@) by { assert("dark"@.len() != "force-auto"@.len()); }
    assert("force"@ != "force-dark"@) by { assert("force"@.len() != "force-dark"@.len()); }
    assert("force"@ != "force-auto"@) by { assert("force"@.len() != "force-auto"@.len()); }
    assert("force-dark"@ != "force-auto"@) by { assert("force-dark"@[6] != "force-auto"@[6]); }
}

} // verus!
