//! The navbar: title and logo, search and Ask-AI buttons, the main nav
//! (links and flyout menus), the language links, the appearance switch,
//! the social links and the mobile menu button.

use vstd::prelude::*;

use crate::config::{NavItem, SocialIcon, SocialLink, ThemeableImage};
use crate::markdown::preprocess::{contains_seq, contains_v, escape_seq, push_escaped};
use crate::render::doc::{push_text_escaped, text_escape};
use crate::render::layout::{nav_item_active, social_label, spec_nav_item_active};
use crate::render::sidebar::{opt_lit, push_opt};
use crate::render::{spec_site_url, Site};
use crate::text::{eq_str, from_chars, push_str, to_chars};

verus! {

broadcast use vstd::string::group_string_axioms;

pub const BAR_OPEN: &'static str = "<div class=\"top relative z-[1] h-(--vp-nav-height) pointer-events-none whitespace-nowrap [--vp-nav-col-offset:0px] [&amp;::before]:content-[''] [&amp;::before]:absolute [&amp;::before]:top-0 [&amp;::before]:right-0 [&amp;::before]:bottom-0 [&amp;::before]:left-(--vp-nav-col-offset) [&amp;::before]:z-[-1] [&amp;::before]:bg-(--vp-nav-bg-color) [&amp;::before]:[backdrop-filter:var(--vp-nav-backdrop-filter)] [&amp;::before]:transition-colors [&amp;::before]:duration-[250ms]";

pub const BAR_HOME: &'static str = " max-lg:[&amp;.home:not(.screen-open)::before]:bg-transparent";

pub const BAR_SIDEBAR: &'static str = " lg:[--vp-nav-col-offset:var(--vp-sidebar-width)] 2xl:[--vp-nav-col-offset:calc((100%-var(--vp-layout-max-width))/2+var(--vp-sidebar-width))]";

pub const BAR_HOME_TOP: &'static str = " lg:[&amp;.home.top::before]:bg-(--vp-nav-home-bg-color) lg:[&amp;.home.top::before]:[backdrop-filter:none]";

pub const BAR_INNER: &'static str = "\" id=\"VPNavBar\"><div class=\"py-0 pr-2 pl-6 md:pr-8 md:pl-8\"><div class=\"flex justify-between mx-auto max-w-[calc(var(--vp-layout-max-width)-4rem)] h-(--vp-nav-height) pointer-events-none\"><div class=\"title min-w-0 pointer-events-none [&amp;_*]:pointer-events-auto";

pub const TITLE_WITH_SIDEBAR: &'static str = " lg:max-w-[calc(var(--vp-sidebar-width)-2rem)]";

pub const TITLE_NOT_HOME: &'static str = " lg:min-w-[calc(var(--vp-sidebar-width)-2rem)]";

pub const TITLE_ROW: &'static str = "\"><div class=\"flex items-center";

pub const TITLE_ROW_SIDEBAR: &'static str = " lg:max-w-[calc(var(--vp-sidebar-width)-4rem)]";

pub const TITLE_LINK: &'static str = "\"><a class=\"flex items-center w-full h-(--vp-nav-height) text-base font-semibold text-text-1 transition-opacity duration-[250ms] [&amp;&gt;span]:overflow-hidden [&amp;&gt;span]:text-ellipsis";

pub const LOGO_OPEN: &'static str = "<img class=\"shrink-0 mr-0 h-(--vp-nav-logo-height)\" src=\"";

pub const CONTENT_OPEN: &'static str = "</a></div></div><div class=\"content grow shrink-0 pointer-events-none [&amp;_*]:pointer-events-auto md:shrink md:min-w-0\"><div class=\"content-body relative flex justify-end items-center h-(--vp-nav-height)\"><div class=\"flex items-center md:gap-2 md:pl-6 lg:pl-8\">";

pub const SEARCH_BUTTON: &'static str = "<button type=\"button\" class=\"flex items-center gap-2 h-(--vp-nav-height) px-[0.875rem] py-2 text-[1.25rem] cursor-pointer md:h-auto md:py-2 md:px-3 md:bg-bg-alt md:rounded-lg md:text-[0.875rem] md:leading-none md:text-text-2\" id=\"VPSearchButton\" aria-keyshortcuts=\"/ control+k meta+k\"><svg class=\"inline-block size-[1em] \" viewBox=\"0 0 24 24\" fill=\"none\" stroke=\"currentColor\" stroke-linecap=\"round\" stroke-linejoin=\"round\" stroke-width=\"2\" aria-hidden=\"true\"><path d=\"m21 21l-4.34-4.34\"/><circle cx=\"11\" cy=\"11\" r=\"8\"/></svg><span class=\"hidden md:inline md:text-[0.8125rem]\">Search</span><span class=\"hidden md:flex md:items-center md:gap-1 md:px-[0.375rem] md:py-1 md:border md:border-divider md:rounded-[0.25rem] md:text-[0.75rem]\" aria-hidden=\"true\"><kbd class=\"font-[inherit] font-medium before:content-['Ctrl'] [.mac_&amp;]:before:content-['⌘']\"></kbd><kbd class=\"font-[inherit] font-medium before:content-['K']\"></kbd></span></button>";

pub const ASK_AI_OPEN: &'static str = "<a class=\"flex items-center h-(--vp-nav-height) px-[0.875rem] py-2 text-[1.25rem] md:h-auto md:p-[0.71875rem] md:transition-colors md:duration-300 md:bg-bg-alt md:rounded-lg md:text-[0.9375rem] md:text-text-2 md:hover:text-brand-1\" href=\"";

pub const ASK_AI_CLOSE: &'static str = "\" target=\"_blank\" rel=\"noopener\" aria-label=\"Ask AI\"><svg class=\"inline-block size-[1em] \" viewBox=\"0 0 24 24\" fill=\"none\" stroke=\"currentColor\" stroke-linecap=\"round\" stroke-linejoin=\"round\" stroke-width=\"1.8\" aria-hidden=\"true\"><path d=\"M11.017 2.814a1 1 0 0 1 1.966 0l1.051 5.558a2 2 0 0 0 1.594 1.594l5.558 1.051a1 1 0 0 1 0 1.966l-5.558 1.051a2 2 0 0 0-1.594 1.594l-1.051 5.558a1 1 0 0 1-1.966 0l-1.051-5.558a2 2 0 0 0-1.594-1.594l-5.558-1.051a1 1 0 0 1 0-1.966l5.558-1.051a2 2 0 0 0 1.594-1.594zM20 2v4m2-2h-4\"/><circle cx=\"4\" cy=\"20\" r=\"2\"/></svg></a>";

pub const NAV_OPEN: &'static str = "<nav class=\"relative hidden md:flex md:grow md:justify-end min-w-0\" aria-label=\"Main Navigation\"><ul class=\"flex justify-end\">";

pub const LINK_CLASS: &'static str = "flex items-center min-h-(--vp-nav-height) px-3 leading-normal text-[0.875rem] font-medium text-text-1 transition-colors duration-[250ms] hover:text-brand-1";

pub const FLYOUT_CLASS: &'static str = "VPFlyout relative group/flyout hover:text-brand-1 transition-colors duration-[250ms]";

pub const FLYOUT_BUTTON: &'static str = "\"><button type=\"button\" class=\"button flex items-center px-3 h-(--vp-nav-height) text-text-1 transition-colors duration-500 cursor-pointer\" aria-expanded=\"false\" aria-haspopup=\"true\"><span class=\"flex items-center leading-(--vp-nav-height) text-[0.875rem] font-medium transition-colors duration-[250ms]";

pub const FLYOUT_ACTIVE: &'static str = " text-brand-1 group-hover/flyout:text-brand-2";

pub const FLYOUT_IDLE: &'static str = " text-text-1 group-hover/flyout:text-text-2";

pub const FLYOUT_MENU: &'static str = "</span><svg class=\"inline-block size-[1em] rotate-90 ml-1 size-[0.875rem]\" viewBox=\"0 0 24 24\" fill=\"none\" stroke=\"currentColor\" stroke-linecap=\"round\" stroke-linejoin=\"round\" stroke-width=\"2\" aria-hidden=\"true\"><path d=\"m9 18l6-6l-6-6\"/></svg></span></button><div class=\"menu absolute top-[calc(var(--vp-nav-height)/2+1.25rem)] right-0 opacity-0 invisible transition-[opacity,visibility] duration-[250ms] group-hover/flyout:opacity-100 group-hover/flyout:visible group-focus-within/flyout:opacity-100 group-focus-within/flyout:visible group-[.open]/flyout:opacity-100 group-[.open]/flyout:visible\"><div class=\"rounded-xl p-3 min-w-32 border border-divider bg-bg-elv shadow-3 transition-colors duration-500 max-h-[calc(100vh-var(--vp-nav-height))] overflow-y-auto\"><ul>";

pub const FLYOUT_ITEM: &'static str = "<li><a class=\"block rounded-md px-3 leading-[2.2857143] text-[0.875rem] font-medium text-left whitespace-nowrap text-text-1 transition-[background-color,color] duration-[250ms] hover:text-brand-1 hover:bg-default-soft";

pub const TRANSLATIONS_OPEN: &'static str = "<div class=\"VPNavBarTranslations hidden lg:flex lg:items-center\">";

pub const LANG_CURRENT: &'static str = "px-3 text-[0.875rem] font-bold text-brand-1";

pub const LANG_OTHER: &'static str = "px-3 text-[0.875rem] text-text-1";

pub const APPEARANCE_SWITCH: &'static str = "<div class=\"flex items-center\"><button type=\"button\" id=\"VPSwitchAppearance\" class=\"VPSwitch VPSwitchAppearance relative block w-10 h-[1.375rem] shrink-0 rounded-[0.6875rem] border border-(--vp-input-border-color) bg-(--vp-input-switch-bg-color) transition-colors duration-[250ms] hover:border-brand-1 cursor-pointer\" role=\"switch\" aria-label=\"Appearance\" aria-checked=\"false\" title=\"Toggle dark mode\"><span class=\"absolute top-px left-px w-[1.125rem] h-[1.125rem] rounded-full bg-(--vp-c-neutral-inverse) shadow-1 transition-transform duration-[250ms] dark:translate-x-[1.125rem]\"><span class=\"relative block w-[1.125rem] h-[1.125rem] rounded-full overflow-hidden\"><svg class=\"inline-block size-[1em] absolute top-[0.1875rem] left-[0.1875rem] size-3 text-text-2 dark:text-text-1 transition-opacity duration-[250ms] opacity-100 dark:opacity-0\" viewBox=\"0 0 24 24\" fill=\"none\" stroke=\"currentColor\" stroke-linecap=\"round\" stroke-linejoin=\"round\" stroke-width=\"2\" aria-hidden=\"true\"><circle cx=\"12\" cy=\"12\" r=\"4\"/><path d=\"M12 2v2m0 16v2M4.93 4.93l1.41 1.41m11.32 11.32l1.41 1.41M2 12h2m16 0h2M6.34 17.66l-1.41 1.41M19.07 4.93l-1.41 1.41\"/></svg><svg class=\"inline-block size-[1em] absolute top-[0.1875rem] left-[0.1875rem] size-3 text-text-2 dark:text-text-1 transition-opacity duration-[250ms] opacity-0 dark:opacity-100\" viewBox=\"0 0 24 24\" fill=\"none\" stroke=\"currentColor\" stroke-linecap=\"round\" stroke-linejoin=\"round\" stroke-width=\"2\" aria-hidden=\"true\"><path d=\"M12 3a6 6 0 0 0 9 9a9 9 0 1 1-9-9\"/></svg></span></span></button></div>";

pub const SOCIAL_OPEN: &'static str = "<div class=\"hidden md:flex md:items-center -mr-2 before:content-[''] before:ml-4 before:mr-2 before:w-px before:h-6 before:bg-divider\"><div class=\"flex\">";

pub const SOCIAL_LINK: &'static str = "<a class=\"flex justify-center items-center w-9 h-9 text-text-2 transition-colors duration-500 hover:text-text-1 hover:duration-[250ms]\" href=\"";

pub const SOCIAL_LABEL: &'static str = "\" aria-label=\"";

pub const SOCIAL_TARGET: &'static str = "\" target=\"_blank\" rel=\"noopener\">";

pub const GITHUB_ICON: &'static str = "<svg class=\"inline-block size-[1em] size-5\" viewBox=\"0 0 24 24\" fill=\"currentColor\" aria-hidden=\"true\"><path d=\"M12 .297c-6.63 0-12 5.373-12 12c0 5.303 3.438 9.8 8.205 11.385c.6.113.82-.258.82-.577c0-.285-.01-1.04-.015-2.04c-3.338.724-4.042-1.61-4.042-1.61C4.422 18.07 3.633 17.7 3.633 17.7c-1.087-.744.084-.729.084-.729c1.205.084 1.838 1.236 1.838 1.236c1.07 1.835 2.809 1.305 3.495.998c.108-.776.417-1.305.76-1.605c-2.665-.3-5.466-1.332-5.466-5.93c0-1.31.465-2.38 1.235-3.22c-.135-.303-.54-1.523.105-3.176c0 0 1.005-.322 3.3 1.23c.96-.267 1.98-.399 3-.405c1.02.006 2.04.138 3 .405c2.28-1.552 3.285-1.23 3.285-1.23c.645 1.653.24 2.873.12 3.176c.765.84 1.23 1.91 1.23 3.22c0 4.61-2.805 5.625-5.475 5.92c.42.36.81 1.096.81 2.22c0 1.606-.015 2.896-.015 3.286c0 .315.21.69.825.57C20.565 22.092 24 17.592 24 12.297c0-6.627-5.373-12-12-12\"/></svg>";

pub const X_ICON: &'static str = "<span class=\"flex w-5 h-5\"><svg class=\"fill-current size-full\" viewBox=\"0 0 24 24\" xmlns=\"http://www.w3.org/2000/svg\"><path d=\"M18.9 2.1h3.4l-7.4 8.5 8.7 11.5h-6.8l-5.3-7-6.1 7H1.9l7.9-9.1L1.4 2.1h7l4.8 6.3 5.7-6.3Zm-1.2 18h1.9L7.4 4H5.4l12.3 16.1Z\"/></svg></span>";

pub const LINK_ICON: &'static str = "<span class=\"flex w-5 h-5\"><svg class=\"fill-current size-full\" viewBox=\"0 0 24 24\" xmlns=\"http://www.w3.org/2000/svg\"><path fill=\"none\" stroke=\"currentColor\" stroke-width=\"2\" d=\"M14 5h5v5m0-5L10 14M9 5H6a2 2 0 0 0-2 2v11a2 2 0 0 0 2 2h11a2 2 0 0 0 2-2v-3\"/></svg></span>";

pub const HAMBURGER: &'static str = "<button type=\"button\" class=\"group flex justify-center items-center w-12 h-(--vp-nav-height) cursor-pointer md:hidden\" id=\"VPNavBarHamburger\" aria-label=\"Menu\" aria-expanded=\"false\"><span class=\"relative w-4 h-[0.875rem] overflow-hidden\" aria-hidden=\"true\"><span class=\"absolute w-4 h-[2px] top-0 left-0 bg-text-1 [transition:top_0.25s,background-color_0.5s,transform_0.25s] group-hover:translate-x-1 group-[.active]:top-[0.375rem] group-[.active]:translate-x-0! group-[.active]:rotate-[225deg] group-hover:group-[.active]:bg-text-2 group-hover:group-[.active]:[transition:top_0.25s,background-color_0.25s,transform_0.25s]\"></span><span class=\"absolute w-4 h-[2px] top-[0.375rem] left-0 translate-x-2 bg-text-1 [transition:top_0.25s,background-color_0.5s,transform_0.25s] group-hover:translate-x-0 group-[.active]:top-[0.375rem] group-[.active]:translate-x-4! group-hover:group-[.active]:bg-text-2 group-hover:group-[.active]:[transition:top_0.25s,background-color_0.25s,transform_0.25s]\"></span><span class=\"absolute w-4 h-[2px] top-[0.75rem] left-0 translate-x-[0.25rem] bg-text-1 [transition:top_0.25s,background-color_0.5s,transform_0.25s] group-hover:translate-x-2 group-[.active]:top-[0.375rem] group-[.active]:translate-x-0! group-[.active]:rotate-[135deg] group-hover:group-[.active]:bg-text-2 group-hover:group-[.active]:[transition:top_0.25s,background-color_0.25s,transform_0.25s]\"></span></span></button></div></div></div></div>";

pub const DIVIDER_OPEN: &'static str = "<div class=\"relative z-[-1] [transform:translateZ(0)] w-full h-px pl-[var(--vp-nav-col-offset)]";

pub const DIVIDER_SIDEBAR: &'static str = " before:content-[''] before:absolute before:top-0 before:left-[calc(var(--vp-nav-col-offset)-var(--vp-sidebar-width)+2rem)] before:w-[calc(var(--vp-sidebar-width)-4rem)] before:h-px before:bg-divider";

pub const DIVIDER_LINE: &'static str = "\"><div class=\"w-full h-px transition-colors duration-[250ms] ";

pub const DIVIDER_PAGE: &'static str = "bg-(--vp-nav-divider-color)";

pub const DIVIDER_HOME: &'static str = "bg-transparent lg:bg-(--vp-nav-divider-color) lg:[.top_&amp;]:bg-transparent";

pub open spec fn opt_text(o: Option<String>) -> Seq<char> {
    match o {
        Some(s) => s@,
        None => Seq::empty(),
    }
}

/// The image a logo setting shows (the light one of a pair).
pub open spec fn logo_src(l: ThemeableImage) -> Seq<char> {
    match l {
        ThemeableImage::Simple(s) => s@,
        ThemeableImage::Detailed { src, .. } => src@,
        ThemeableImage::Dual { light, .. } => light@,
    }
}

// ── title ──────────────────────────────────────────────────────────────

pub open spec fn title_class(is_home: bool, has_sidebar: bool) -> Seq<char> {
    if has_sidebar {
        TITLE_WITH_SIDEBAR@
    } else if !is_home {
        TITLE_NOT_HOME@
    } else {
        Seq::empty()
    }
}

/// The outer bar's classes up to the title link's `href`.
pub open spec fn bar_open(is_home: bool, has_sidebar: bool) -> Seq<char> {
    BAR_OPEN@ + opt_lit(is_home, BAR_HOME@) + opt_lit(has_sidebar, BAR_SIDEBAR@) + opt_lit(is_home, BAR_HOME_TOP@)
        + BAR_INNER@ + title_class(is_home, has_sidebar) + TITLE_ROW@ + opt_lit(has_sidebar, TITLE_ROW_SIDEBAR@)
        + TITLE_LINK@ + opt_lit(has_sidebar, " lg:shrink-0"@) + "\" href=\""@
}

pub open spec fn logo_part(site: Site) -> Seq<char> {
    match site.config.logo {
        Some(l) => LOGO_OPEN@ + escape_seq(spec_site_url(site.config.base@, logo_src(l))) + "\" alt=\"Logo\">"@,
        None => Seq::empty(),
    }
}

pub open spec fn title_part(site_title: Option<String>) -> Seq<char> {
    match site_title {
        Some(t) => "<span>"@ + text_escape(t@) + "</span>"@,
        None => Seq::empty(),
    }
}

/// The outer bar and the title link (to the site root) with the logo
/// and the title.
pub open spec fn bar_title(site: Site, is_home: bool, has_sidebar: bool, site_title: Option<String>) -> Seq<char> {
    bar_open(is_home, has_sidebar) + escape_seq(spec_site_url(site.config.base@, "/"@)) + "\">"@ + logo_part(site)
        + title_part(site_title)
}

/// The search button (with search) and the Ask-AI link (when set).
pub open spec fn bar_tools(site: Site) -> Seq<char> {
    CONTENT_OPEN@ + opt_lit(site.config.search is Some, SEARCH_BUTTON@) + (match site.config.ask_ai_url {
        Some(u) => ASK_AI_OPEN@ + escape_seq(u@) + ASK_AI_CLOSE@,
        None => Seq::empty(),
    }) + "</div>"@
}

// ── main nav ───────────────────────────────────────────────────────────

/// A flyout entry: marked when the current URL contains its link.
pub open spec fn flyout_item(base: Seq<char>, child: NavItem, cur: Seq<char>) -> Seq<char> {
    FLYOUT_ITEM@ + opt_lit(
        match child.link {
            Some(l) => contains_seq(cur, l@),
            None => false,
        },
        " text-brand-1"@,
    ) + "\" href=\""@ + escape_seq(spec_site_url(base, opt_text(child.link))) + "\">"@ + text_escape(child.text@)
        + "</a></li>"@
}

pub open spec fn flyout_items(base: Seq<char>, cs: Seq<NavItem>, cur: Seq<char>) -> Seq<char>
    decreases cs.len(),
{
    if cs.len() == 0 {
        Seq::empty()
    } else {
        flyout_items(base, cs.drop_last(), cur) + flyout_item(base, cs.last(), cur)
    }
}

/// A top-level nav entry: a link, or a flyout menu of its items.
pub open spec fn nav_entry(base: Seq<char>, item: NavItem, cur: Seq<char>) -> Seq<char> {
    let active = spec_nav_item_active(item, cur);
    if item.items.len() == 0 {
        "<a class=\""@ + LINK_CLASS@ + opt_lit(active, " text-brand-1"@) + "\" href=\""@ + escape_seq(
            spec_site_url(base, opt_text(item.link)),
        ) + "\"><span>"@ + text_escape(item.text@) + "</span></a>"@
    } else {
        "<div class=\""@ + FLYOUT_CLASS@ + opt_lit(active, " active"@) + FLYOUT_BUTTON@ + (if active {
            FLYOUT_ACTIVE@
        } else {
            FLYOUT_IDLE@
        }) + "\"><span>"@ + text_escape(item.text@) + FLYOUT_MENU@ + flyout_items(base, item.items@, cur)
            + "</ul></div></div></div>"@
    }
}

pub open spec fn nav_entries(base: Seq<char>, items: Seq<NavItem>, cur: Seq<char>) -> Seq<char>
    decreases items.len(),
{
    if items.len() == 0 {
        Seq::empty()
    } else {
        nav_entries(base, items.drop_last(), cur) + "<li>"@ + nav_entry(base, items.last(), cur) + "</li>"@
    }
}

pub open spec fn nav_part(base: Seq<char>, items: Seq<NavItem>, cur: Seq<char>) -> Seq<char> {
    if items.len() == 0 {
        Seq::empty()
    } else {
        NAV_OPEN@ + nav_entries(base, items, cur) + "</ul></nav>"@
    }
}

// ── languages and socials ──────────────────────────────────────────────

pub open spec fn lang_link(t: (String, String, bool)) -> Seq<char> {
    "<a class=\""@ + (if t.2 {
        LANG_CURRENT@
    } else {
        LANG_OTHER@
    }) + "\" href=\""@ + escape_seq(t.1@) + "\" lang=\""@ + escape_seq(t.0@) + "\">"@ + text_escape(t.0@) + "</a>"@
}

pub open spec fn lang_links(ts: Seq<(String, String, bool)>) -> Seq<char>
    decreases ts.len(),
{
    if ts.len() == 0 {
        Seq::empty()
    } else {
        lang_links(ts.drop_last()) + lang_link(ts.last())
    }
}

pub open spec fn languages_part(ts: Seq<(String, String, bool)>) -> Seq<char> {
    if ts.len() == 0 {
        Seq::empty()
    } else {
        TRANSLATIONS_OPEN@ + lang_links(ts) + "</div>"@
    }
}

/// A social icon: the GitHub and X glyphs by name, a generic link glyph
/// for other names, a custom SVG as it is.
pub open spec fn social_icon(icon: SocialIcon) -> Seq<char> {
    match icon {
        SocialIcon::Name(n) => if n@ == "github"@ {
            GITHUB_ICON@
        } else if n@ == "twitter"@ || n@ == "x"@ {
            X_ICON@
        } else {
            LINK_ICON@
        },
        SocialIcon::Svg { svg } => svg@,
    }
}

pub open spec fn social_name(icon: SocialIcon) -> Seq<char> {
    match icon {
        SocialIcon::Name(n) => n@,
        SocialIcon::Svg { .. } => "link"@,
    }
}

pub open spec fn social_link(s: SocialLink) -> Seq<char> {
    SOCIAL_LINK@ + escape_seq(s.link@) + SOCIAL_LABEL@ + escape_seq(social_name(s.icon)) + SOCIAL_TARGET@ + social_icon(
        s.icon,
    ) + "</a>"@
}

pub open spec fn social_links(ss: Seq<SocialLink>) -> Seq<char>
    decreases ss.len(),
{
    if ss.len() == 0 {
        Seq::empty()
    } else {
        social_links(ss.drop_last()) + social_link(ss.last())
    }
}

pub open spec fn socials_part(ss: Seq<SocialLink>) -> Seq<char> {
    if ss.len() == 0 {
        Seq::empty()
    } else {
        SOCIAL_OPEN@ + social_links(ss) + "</div></div>"@
    }
}

/// The navbar of a page at `cur`; `site_title` is the title to show
/// (`None`: hidden).
pub open spec fn spec_navbar(
    site: Site,
    cur: Seq<char>,
    is_home: bool,
    has_sidebar: bool,
    translations: Seq<(String, String, bool)>,
    site_title: Option<String>,
) -> Seq<char> {
    bar_title(site, is_home, has_sidebar, site_title) + bar_tools(site) + nav_part(
        site.config.base@,
        site.config.nav@,
        cur,
    ) + languages_part(translations) + APPEARANCE_SWITCH@ + socials_part(site.config.social_links@) + HAMBURGER@
        + DIVIDER_OPEN@ + opt_lit(has_sidebar, DIVIDER_SIDEBAR@) + DIVIDER_LINE@ + (if is_home {
        DIVIDER_HOME@
    } else {
        DIVIDER_PAGE@
    }) + "\"></div></div></div>"@
}

// ── the mobile screen ──────────────────────────────────────────────────

pub const SCREEN_OPEN: &'static str = "<div class=\"fixed inset-0 pt-[calc(var(--vp-nav-height)+var(--vp-layout-top-height,0px)+1px)] pr-8 pl-8 bg-(--vp-nav-screen-bg-color) w-full overflow-y-auto overscroll-contain transition-colors duration-[250ms] pointer-events-auto opacity-100 md:hidden\" id=\"VPNavScreen\" hidden><div class=\"mx-auto pt-6 pb-24 max-w-[18rem]\"><nav class=\"menu\" aria-label=\"Main Navigation\"><ul>";

pub const SCREEN_APPEARANCE: &'static str = "</ul></nav><div class=\"appearance flex justify-center items-center pt-3";

pub const SCREEN_SWITCH: &'static str = "\"><span class=\"label mr-3 text-[0.875rem] font-medium text-text-1\">Appearance</span><button type=\"button\" id=\"VPSwitchAppearanceScreen\" class=\"VPSwitch VPSwitchAppearance relative block w-10 h-[1.375rem] shrink-0 rounded-[0.6875rem] border border-(--vp-input-border-color) bg-(--vp-input-switch-bg-color) transition-colors duration-[250ms] hover:border-brand-1 cursor-pointer\" role=\"switch\" aria-label=\"Appearance\" aria-checked=\"false\" title=\"Toggle dark mode\"><span class=\"absolute top-px left-px w-[1.125rem] h-[1.125rem] rounded-full bg-(--vp-c-neutral-inverse) shadow-1 transition-transform duration-[250ms] dark:translate-x-[1.125rem]\"><span class=\"relative block w-[1.125rem] h-[1.125rem] rounded-full overflow-hidden\"><svg class=\"inline-block size-[1em] absolute top-[0.1875rem] left-[0.1875rem] size-3 text-text-2 dark:text-text-1 transition-opacity duration-[250ms] opacity-100 dark:opacity-0\" viewBox=\"0 0 24 24\" fill=\"none\" stroke=\"currentColor\" stroke-linecap=\"round\" stroke-linejoin=\"round\" stroke-width=\"2\" aria-hidden=\"true\"><circle cx=\"12\" cy=\"12\" r=\"4\"/><path d=\"M12 2v2m0 16v2M4.93 4.93l1.41 1.41m11.32 11.32l1.41 1.41M2 12h2m16 0h2M6.34 17.66l-1.41 1.41M19.07 4.93l-1.41 1.41\"/></svg><svg class=\"inline-block size-[1em] absolute top-[0.1875rem] left-[0.1875rem] size-3 text-text-2 dark:text-text-1 transition-opacity duration-[250ms] opacity-0 dark:opacity-100\" viewBox=\"0 0 24 24\" fill=\"none\" stroke=\"currentColor\" stroke-linecap=\"round\" stroke-linejoin=\"round\" stroke-width=\"2\" aria-hidden=\"true\"><path d=\"M12 3a6 6 0 0 0 9 9a9 9 0 1 1-9-9\"/></svg></span></span></button></div>";

pub const SCREEN_SOCIAL_OPEN: &'static str = "<div class=\"social-links mt-4\"><div class=\"flex\">";

pub const SCREEN_LINK: &'static str = "<a class=\"block border-b border-divider pt-3 pb-[0.6875rem] leading-[1.7142857] text-[0.875rem] font-medium text-text-1 transition-colors duration-[250ms] hover:text-brand-1";

pub const SCREEN_GROUP_BUTTON: &'static str = "\"><button type=\"button\" class=\"button cursor-pointer\" aria-expanded=\"false\"><span class=\"button-text\">";

pub const SCREEN_GROUP_ITEMS: &'static str = "</span><svg class=\"inline-block size-[1em] button-icon\" viewBox=\"0 0 24 24\" fill=\"none\" stroke=\"currentColor\" stroke-linecap=\"round\" stroke-linejoin=\"round\" stroke-width=\"2\" aria-hidden=\"true\"><path d=\"M5 12h14m-7-7v14\"/></svg></button><ul class=\"items\" hidden>";

pub const SCREEN_CHILD: &'static str = "<li><a class=\"block border-b border-divider pt-3 pb-[0.6875rem] leading-[1.7142857] text-[0.875rem] font-medium text-text-1 transition-colors duration-[250ms] hover:text-brand-1\" href=\"";

pub open spec fn screen_child(base: Seq<char>, c: NavItem) -> Seq<char> {
    SCREEN_CHILD@ + escape_seq(spec_site_url(base, opt_text(c.link))) + "\">"@ + text_escape(c.text@) + "</a></li>"@
}

pub open spec fn screen_children(base: Seq<char>, cs: Seq<NavItem>) -> Seq<char>
    decreases cs.len(),
{
    if cs.len() == 0 {
        Seq::empty()
    } else {
        screen_children(base, cs.drop_last()) + screen_child(base, cs.last())
    }
}

/// A mobile-menu entry: a link, or a group that unfolds its items.
pub open spec fn screen_entry(base: Seq<char>, item: NavItem, cur: Seq<char>) -> Seq<char> {
    let active = spec_nav_item_active(item, cur);
    if item.items.len() == 0 {
        SCREEN_LINK@ + opt_lit(active, " text-brand-1"@) + "\" href=\""@ + escape_seq(
            spec_site_url(base, opt_text(item.link)),
        ) + "\">"@ + text_escape(item.text@) + "</a>"@
    } else {
        "<div class=\"VPNavScreenMenuGroup group"@ + opt_lit(active, " active"@) + SCREEN_GROUP_BUTTON@ + text_escape(
            item.text@,
        ) + SCREEN_GROUP_ITEMS@ + screen_children(base, item.items@) + "</ul></div>"@
    }
}

pub open spec fn screen_entries(base: Seq<char>, items: Seq<NavItem>, cur: Seq<char>) -> Seq<char>
    decreases items.len(),
{
    if items.len() == 0 {
        Seq::empty()
    } else {
        screen_entries(base, items.drop_last(), cur) + "<li>"@ + screen_entry(base, items.last(), cur) + "</li>"@
    }
}

/// The full-screen mobile menu: the nav entries, the appearance switch
/// and the social links.
pub open spec fn spec_nav_screen(site: Site, cur: Seq<char>) -> Seq<char> {
    let items = site.config.nav@;
    SCREEN_OPEN@ + screen_entries(site.config.base@, items, cur) + SCREEN_APPEARANCE@ + opt_lit(
        items.len() > 0,
        " mt-4"@,
    ) + SCREEN_SWITCH@ + (if site.config.social_links@.len() == 0 {
        Seq::empty()
    } else {
        SCREEN_SOCIAL_OPEN@ + social_links(site.config.social_links@) + "</div></div>"@
    }) + "</div></div>"@
}

// ── rendering ──────────────────────────────────────────────────────────

#[verifier::spinoff_prover]
fn push_bar_open(is_home: bool, has_sidebar: bool, out: &mut Vec<char>)
    ensures
        final(out)@ == old(out)@ + bar_open(is_home, has_sidebar),
{
    let ghost start = out@;
    push_str(out, BAR_OPEN);
    push_opt(out, is_home, BAR_HOME);
    push_opt(out, has_sidebar, BAR_SIDEBAR);
    push_opt(out, is_home, BAR_HOME_TOP);
    push_str(out, BAR_INNER);
    let ghost s0 = out@;
    if has_sidebar {
        push_str(out, TITLE_WITH_SIDEBAR);
    } else if !is_home {
        push_str(out, TITLE_NOT_HOME);
    }
    assert(out@ =~= s0 + title_class(is_home, has_sidebar));
    push_str(out, TITLE_ROW);
    push_opt(out, has_sidebar, TITLE_ROW_SIDEBAR);
    push_str(out, TITLE_LINK);
    push_opt(out, has_sidebar, " lg:shrink-0");
    push_str(out, "\" href=\"");
    assert(out@ =~= start + bar_open(is_home, has_sidebar));
}

fn push_logo(site: &Site, out: &mut Vec<char>)
    ensures
        final(out)@ == old(out)@ + logo_part(*site),
{
    let ghost start = out@;
    match &site.config.logo {
        Some(l) => {
            let src: &String = match l {
                ThemeableImage::Simple(x) => x,
                ThemeableImage::Detailed { src, .. } => src,
                ThemeableImage::Dual { light, .. } => light,
            };
            push_str(out, LOGO_OPEN);
            let u = site.url(src.as_str());
            push_escaped(out, &to_chars(u.as_str()));
            push_str(out, "\" alt=\"Logo\">");
        },
        None => {},
    }
    assert(out@ =~= start + logo_part(*site));
}

fn push_title(site_title: &Option<String>, out: &mut Vec<char>)
    ensures
        final(out)@ == old(out)@ + title_part(*site_title),
{
    let ghost start = out@;
    match site_title {
        Some(t) => {
            push_str(out, "<span>");
            push_text_escaped(out, &to_chars(t.as_str()));
            push_str(out, "</span>");
        },
        None => {},
    }
    assert(out@ =~= start + title_part(*site_title));
}

#[verifier::spinoff_prover]
fn push_bar_title(site: &Site, is_home: bool, has_sidebar: bool, site_title: &Option<String>, out: &mut Vec<char>)
    ensures
        final(out)@ == old(out)@ + bar_title(*site, is_home, has_sidebar, *site_title),
{
    let ghost start = out@;
    push_bar_open(is_home, has_sidebar, out);
    let home = site.url("/");
    push_escaped(out, &to_chars(home.as_str()));
    push_str(out, "\">");
    push_logo(site, out);
    push_title(site_title, out);
    assert(out@ =~= start + bar_title(*site, is_home, has_sidebar, *site_title));
}

fn push_bar_tools(site: &Site, out: &mut Vec<char>)
    ensures
        final(out)@ == old(out)@ + bar_tools(*site),
{
    let ghost start = out@;
    push_str(out, CONTENT_OPEN);
    push_opt(out, site.config.search.is_some(), SEARCH_BUTTON);
    let ghost s0 = out@;
    match &site.config.ask_ai_url {
        Some(u) => {
            push_str(out, ASK_AI_OPEN);
            push_escaped(out, &to_chars(u.as_str()));
            push_str(out, ASK_AI_CLOSE);
        },
        None => {},
    }
    push_str(out, "</div>");
    assert(out@ =~= start + bar_tools(*site));
}

fn push_site_url_escaped(site: &Site, link: &Option<String>, out: &mut Vec<char>)
    ensures
        final(out)@ == old(out)@ + escape_seq(spec_site_url(site.config.base@, opt_text(*link))),
{
    let u = match link {
        Some(l) => site.url(l.as_str()),
        None => {
            proof {
                reveal_strlit("");
                assert(""@ =~= Seq::<char>::empty());
            }
            site.url("")
        },
    };
    push_escaped(out, &to_chars(u.as_str()));
}

fn push_flyout_item(site: &Site, child: &NavItem, cur: &Vec<char>, out: &mut Vec<char>)
    ensures
        final(out)@ == old(out)@ + flyout_item(site.config.base@, *child, cur@),
{
    let ghost start = out@;
    let marked = match &child.link {
        Some(l) => contains_v(cur, &to_chars(l.as_str())),
        None => false,
    };
    push_str(out, FLYOUT_ITEM);
    push_opt(out, marked, " text-brand-1");
    push_str(out, "\" href=\"");
    push_site_url_escaped(site, &child.link, out);
    push_str(out, "\">");
    push_text_escaped(out, &to_chars(child.text.as_str()));
    push_str(out, "</a></li>");
    assert(out@ =~= start + flyout_item(site.config.base@, *child, cur@));
}

#[verifier::spinoff_prover]
fn push_nav_entry(site: &Site, item: &NavItem, cur: &Vec<char>, cur_s: &str, out: &mut Vec<char>)
    requires
        cur@ == cur_s@,
    ensures
        final(out)@ == old(out)@ + nav_entry(site.config.base@, *item, cur@),
{
    let ghost start = out@;
    let active = nav_item_active(item, cur_s);
    if item.items.len() == 0 {
        push_str(out, "<a class=\"");
        push_str(out, LINK_CLASS);
        push_opt(out, active, " text-brand-1");
        push_str(out, "\" href=\"");
        push_site_url_escaped(site, &item.link, out);
        push_str(out, "\"><span>");
        push_text_escaped(out, &to_chars(item.text.as_str()));
        push_str(out, "</span></a>");
    } else {
        push_str(out, "<div class=\"");
        push_str(out, FLYOUT_CLASS);
        push_opt(out, active, " active");
        push_str(out, FLYOUT_BUTTON);
        push_str(out, if active { FLYOUT_ACTIVE } else { FLYOUT_IDLE });
        push_str(out, "\"><span>");
        push_text_escaped(out, &to_chars(item.text.as_str()));
        push_str(out, FLYOUT_MENU);
        let ghost s0 = out@;
        let mut i: usize = 0;
        assert(item.items@.take(0) =~= Seq::<NavItem>::empty());
        while i < item.items.len()
            invariant
                i <= item.items.len(),
                out@ == s0 + flyout_items(site.config.base@, item.items@.take(i as int), cur@),
            decreases item.items.len() - i,
        {
            proof {
                assert(item.items@.take(i as int + 1).drop_last() =~= item.items@.take(i as int));
            }
            push_flyout_item(site, &item.items[i], cur, out);
            i += 1;
        }
        assert(item.items@.take(i as int) =~= item.items@);
        push_str(out, "</ul></div></div></div>");
    }
    assert(out@ =~= start + nav_entry(site.config.base@, *item, cur@));
}

fn push_nav(site: &Site, cur: &Vec<char>, cur_s: &str, out: &mut Vec<char>)
    requires
        cur@ == cur_s@,
    ensures
        final(out)@ == old(out)@ + nav_part(site.config.base@, site.config.nav@, cur@),
{
    let ghost start = out@;
    let items = &site.config.nav;
    if items.len() == 0 {
        assert(out@ =~= start + nav_part(site.config.base@, site.config.nav@, cur@));
        return;
    }
    push_str(out, NAV_OPEN);
    let ghost s0 = out@;
    let mut i: usize = 0;
    assert(items@.take(0) =~= Seq::<NavItem>::empty());
    while i < items.len()
        invariant
            i <= items.len(),
            cur@ == cur_s@,
            out@ == s0 + nav_entries(site.config.base@, items@.take(i as int), cur@),
        decreases items.len() - i,
    {
        proof {
            assert(items@.take(i as int + 1).drop_last() =~= items@.take(i as int));
        }
        let ghost before = out@;
        push_str(out, "<li>");
        push_nav_entry(site, &items[i], cur, cur_s, out);
        push_str(out, "</li>");
        assert(out@ =~= before + "<li>"@ + nav_entry(site.config.base@, items@[i as int], cur@) + "</li>"@);
        i += 1;
    }
    assert(items@.take(i as int) =~= items@);
    push_str(out, "</ul></nav>");
    assert(out@ =~= start + nav_part(site.config.base@, site.config.nav@, cur@));
}

fn push_lang_link(t: &(String, String, bool), out: &mut Vec<char>)
    ensures
        final(out)@ == old(out)@ + lang_link(*t),
{
    let ghost start = out@;
    push_str(out, "<a class=\"");
    push_str(out, if t.2 { LANG_CURRENT } else { LANG_OTHER });
    push_str(out, "\" href=\"");
    push_escaped(out, &to_chars(t.1.as_str()));
    push_str(out, "\" lang=\"");
    let label = to_chars(t.0.as_str());
    push_escaped(out, &label);
    push_str(out, "\">");
    push_text_escaped(out, &label);
    push_str(out, "</a>");
    assert(out@ =~= start + lang_link(*t));
}

fn push_languages(ts: &Vec<(String, String, bool)>, out: &mut Vec<char>)
    ensures
        final(out)@ == old(out)@ + languages_part(ts@),
{
    let ghost start = out@;
    if ts.len() == 0 {
        assert(out@ =~= start + languages_part(ts@));
        return;
    }
    push_str(out, TRANSLATIONS_OPEN);
    let ghost s0 = out@;
    let mut i: usize = 0;
    assert(ts@.take(0) =~= Seq::<(String, String, bool)>::empty());
    while i < ts.len()
        invariant
            i <= ts.len(),
            out@ == s0 + lang_links(ts@.take(i as int)),
        decreases ts.len() - i,
    {
        proof {
            assert(ts@.take(i as int + 1).drop_last() =~= ts@.take(i as int));
        }
        push_lang_link(&ts[i], out);
        i += 1;
    }
    assert(ts@.take(i as int) =~= ts@);
    push_str(out, "</div>");
    assert(out@ =~= start + languages_part(ts@));
}

fn social_icon_str(icon: &SocialIcon) -> (r: &str)
    ensures
        r@ == social_icon(*icon),
{
    match icon {
        SocialIcon::Name(n) => {
            let nv = to_chars(n.as_str());
            if eq_str(&nv, "github") {
                GITHUB_ICON
            } else if eq_str(&nv, "twitter") || eq_str(&nv, "x") {
                X_ICON
            } else {
                LINK_ICON
            }
        },
        SocialIcon::Svg { svg } => svg.as_str(),
    }
}

fn push_social_link(s: &SocialLink, out: &mut Vec<char>)
    ensures
        final(out)@ == old(out)@ + social_link(*s),
{
    let ghost start = out@;
    push_str(out, SOCIAL_LINK);
    push_escaped(out, &to_chars(s.link.as_str()));
    push_str(out, SOCIAL_LABEL);
    let label = social_label(&s.icon);
    push_escaped(out, &to_chars(label.as_str()));
    push_str(out, SOCIAL_TARGET);
    push_str(out, social_icon_str(&s.icon));
    push_str(out, "</a>");
    assert(out@ =~= start + social_link(*s));
}

fn push_socials(ss: &Vec<SocialLink>, out: &mut Vec<char>)
    ensures
        final(out)@ == old(out)@ + socials_part(ss@),
{
    let ghost start = out@;
    if ss.len() == 0 {
        assert(out@ =~= start + socials_part(ss@));
        return;
    }
    push_str(out, SOCIAL_OPEN);
    let ghost s0 = out@;
    let mut i: usize = 0;
    assert(ss@.take(0) =~= Seq::<SocialLink>::empty());
    while i < ss.len()
        invariant
            i <= ss.len(),
            out@ == s0 + social_links(ss@.take(i as int)),
        decreases ss.len() - i,
    {
        proof {
            assert(ss@.take(i as int + 1).drop_last() =~= ss@.take(i as int));
        }
        push_social_link(&ss[i], out);
        i += 1;
    }
    assert(ss@.take(i as int) =~= ss@);
    push_str(out, "</div></div>");
    assert(out@ =~= start + socials_part(ss@));
}

/// The navbar of the page at `current_url` (see `spec_navbar`).
#[verifier::spinoff_prover]
pub fn navbar_html(
    site: &Site,
    current_url: &str,
    is_home: bool,
    has_sidebar: bool,
    translations: &Vec<(String, String, bool)>,
    site_title: &Option<String>,
) -> (r: String)
    ensures
        r@ == spec_navbar(*site, current_url@, is_home, has_sidebar, translations@, *site_title),
{
    let cur = to_chars(current_url);
    let mut out: Vec<char> = Vec::new();
    push_bar_title(site, is_home, has_sidebar, site_title, &mut out);
    push_bar_tools(site, &mut out);
    let ghost s0 = out@;
    push_nav(site, &cur, current_url, &mut out);
    push_languages(translations, &mut out);
    push_str(&mut out, APPEARANCE_SWITCH);
    push_socials(&site.config.social_links, &mut out);
    push_str(&mut out, HAMBURGER);
    let ghost s1 = out@;
    push_str(&mut out, DIVIDER_OPEN);
    push_opt(&mut out, has_sidebar, DIVIDER_SIDEBAR);
    push_str(&mut out, DIVIDER_LINE);
    push_str(&mut out, if is_home { DIVIDER_HOME } else { DIVIDER_PAGE });
    push_str(&mut out, "\"></div></div></div>");
    assert(out@ =~= spec_navbar(*site, current_url@, is_home, has_sidebar, translations@, *site_title));
    from_chars(&out)
}

#[verifier::spinoff_prover]
fn push_screen_entry(site: &Site, item: &NavItem, cur_s: &str, out: &mut Vec<char>)
    ensures
        final(out)@ == old(out)@ + screen_entry(site.config.base@, *item, cur_s@),
{
    let ghost start = out@;
    let active = nav_item_active(item, cur_s);
    if item.items.len() == 0 {
        push_str(out, SCREEN_LINK);
        push_opt(out, active, " text-brand-1");
        push_str(out, "\" href=\"");
        push_site_url_escaped(site, &item.link, out);
        push_str(out, "\">");
        push_text_escaped(out, &to_chars(item.text.as_str()));
        push_str(out, "</a>");
    } else {
        push_str(out, "<div class=\"VPNavScreenMenuGroup group");
        push_opt(out, active, " active");
        push_str(out, SCREEN_GROUP_BUTTON);
        push_text_escaped(out, &to_chars(item.text.as_str()));
        push_str(out, SCREEN_GROUP_ITEMS);
        let ghost s0 = out@;
        let mut i: usize = 0;
        assert(item.items@.take(0) =~= Seq::<NavItem>::empty());
        while i < item.items.len()
            invariant
                i <= item.items.len(),
                out@ == s0 + screen_children(site.config.base@, item.items@.take(i as int)),
            decreases item.items.len() - i,
        {
            proof {
                assert(item.items@.take(i as int + 1).drop_last() =~= item.items@.take(i as int));
            }
            let ghost before = out@;
            let c = &item.items[i];
            push_str(out, SCREEN_CHILD);
            push_site_url_escaped(site, &c.link, out);
            push_str(out, "\">");
            push_text_escaped(out, &to_chars(c.text.as_str()));
            push_str(out, "</a></li>");
            assert(out@ =~= before + screen_child(site.config.base@, *c));
            i += 1;
        }
        assert(item.items@.take(i as int) =~= item.items@);
        push_str(out, "</ul></div>");
    }
    assert(out@ =~= start + screen_entry(site.config.base@, *item, cur_s@));
}

/// The mobile menu screen (see `spec_nav_screen`).
#[verifier::spinoff_prover]
pub fn nav_screen_html(site: &Site, current_url: &str) -> (r: String)
    ensures
        r@ == spec_nav_screen(*site, current_url@),
{
    let items = &site.config.nav;
    let mut out = to_chars(SCREEN_OPEN);
    let ghost s0 = out@;
    let mut i: usize = 0;
    assert(items@.take(0) =~= Seq::<NavItem>::empty());
    while i < items.len()
        invariant
            i <= items.len(),
            out@ == s0 + screen_entries(site.config.base@, items@.take(i as int), current_url@),
        decreases items.len() - i,
    {
        proof {
            assert(items@.take(i as int + 1).drop_last() =~= items@.take(i as int));
        }
        let ghost before = out@;
        push_str(&mut out, "<li>");
        push_screen_entry(site, &items[i], current_url, &mut out);
        push_str(&mut out, "</li>");
        assert(out@ =~= before + "<li>"@ + screen_entry(site.config.base@, items@[i as int], current_url@) + "</li>"@);
        i += 1;
    }
    assert(items@.take(i as int) =~= items@);
    push_str(&mut out, SCREEN_APPEARANCE);
    push_opt(&mut out, items.len() > 0, " mt-4");
    push_str(&mut out, SCREEN_SWITCH);
    let ghost s1 = out@;
    let ss = &site.config.social_links;
    if ss.len() > 0 {
        push_str(&mut out, SCREEN_SOCIAL_OPEN);
        let ghost s2 = out@;
        let mut j: usize = 0;
        assert(ss@.take(0) =~= Seq::<SocialLink>::empty());
        while j < ss.len()
            invariant
                j <= ss.len(),
                out@ == s2 + social_links(ss@.take(j as int)),
            decreases ss.len() - j,
        {
            proof {
                assert(ss@.take(j as int + 1).drop_last() =~= ss@.take(j as int));
            }
            push_social_link(&ss[j], &mut out);
            j += 1;
        }
        assert(ss@.take(j as int) =~= ss@);
        push_str(&mut out, "</div></div>");
    }
    assert(out@ =~= s1 + (if ss@.len() == 0 {
        Seq::<char>::empty()
    } else {
        SCREEN_SOCIAL_OPEN@ + social_links(ss@) + "</div></div>"@
    }));
    push_str(&mut out, "</div></div>");
    assert(out@ =~= spec_nav_screen(*site, current_url@));
    from_chars(&out)
}

} // verus!
