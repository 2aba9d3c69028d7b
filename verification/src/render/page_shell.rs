//! The document shell: the head (stylesheets, the pre-paint appearance
//! script, math loader, head tags), the body scaffolding around the
//! page content, the footer and the script tag.

use vstd::prelude::*;

use crate::markdown::preprocess::{escape_seq, push_escaped};
use crate::render::doc::{push_text_escaped, text_escape};
use crate::render::layout::{appearance_script, serialize_head_tags, spec_appearance_script, spec_head_tags};
use crate::markdown::Heading;
use crate::render::local_nav::{local_nav_html, spec_local_nav};
use crate::render::navbar::{nav_screen_html, navbar_html, spec_nav_screen, spec_navbar};
use crate::render::sidebar::{opt_lit, push_opt, sidebar_html, spec_sidebar_for};
use crate::render::{spec_site_url, Site};
use crate::text::{from_chars, push_str, to_chars};

verus! {

broadcast use vstd::string::group_string_axioms;

pub const HTML_CLASS_OPEN: &'static str = "\" class=\"[color-scheme:light] dark:[color-scheme:dark]\"><head><meta charset=\"UTF-8\"><meta name=\"viewport\" content=\"width=device-width, initial-scale=1.0\"><title>";

pub const DESCRIPTION_OPEN: &'static str = "</title><meta name=\"description\" content=\"";

pub const STYLESHEET_OPEN: &'static str = "<link rel=\"stylesheet\" href=\"";

pub const BODY_OPEN: &'static str = "</head><body class=\"font-sans bg-bg text-text-1 antialiased [text-rendering:optimizeLegibility] [-moz-osx-font-smoothing:grayscale] [text-autospace:normal] [text-spacing-trim:normal]\"><a class=\"sr-only\" href=\"#main\">";

pub const BACKDROP: &'static str = "</a><div class=\"fixed inset-0 z-(--vp-z-index-backdrop) bg-(--vp-backdrop-bg-color) transition-opacity duration-500 xl:hidden\" id=\"VPBackdrop\" x-cloak x-show=\"$store.ui.screen || $store.ui.sidebar\" @click=\"$store.ui.screen = false; $store.ui.sidebar = false\"></div>";

pub const HEADER_OPEN: &'static str = "<header class=\"relative top-[var(--vp-layout-top-height,0px)] left-0 z-(--vp-z-index-nav) w-full pointer-events-none lg:fixed\">";

pub const CONTENT_WITH_SIDEBAR: &'static str = "grow shrink-0 m-0 w-full lg:mt-[var(--vp-layout-top-height,0px)] lg:pt-(--vp-nav-height) lg:pl-(--vp-sidebar-width) 2xl:pr-[calc((100%-var(--vp-layout-max-width))/2)] 2xl:pl-[calc((100%-var(--vp-layout-max-width))/2+var(--vp-sidebar-width))]";

pub const CONTENT_PLAIN: &'static str = "grow shrink-0 w-full mx-auto mt-[var(--vp-layout-top-height,0px)] max-w-full lg:pt-(--vp-nav-height)";

pub const FOOTER_OPEN: &'static str = "<footer class=\"relative z-(--vp-z-index-footer) border-t border-gutter py-8 px-6 bg-bg md:px-8";

pub const FOOTER_INNER: &'static str = "\"><div class=\"mx-auto max-w-(--vp-layout-max-width) text-center [&amp;_a]:underline [&amp;_a]:underline-offset-[0.125rem] [&amp;_a]:transition-colors [&amp;_a]:duration-[250ms] [&amp;_a:hover]:text-text-1\">";

pub const FOOTER_LINE: &'static str = "<p class=\"leading-[1.7142857] text-[0.875rem] font-medium text-text-2\">";

pub const MATHJAX_SCRIPT: &'static str = "<script>\nwindow.MathJax = {\n  tex: {\n    inlineMath: [[\"\\(\", \"\\)\"]],\n    displayMath: [[\"\\[\", \"\\]\"]],\n    skipHtmlTags: [\"script\", \"noscript\", \"style\", \"textarea\", \"pre\", \"code\"]\n  },\n  svg: { fontCache: \"global\" }\n};\n</script>\n<script defer src=\"https://cdn.jsdelivr.net/npm/mathjax@3/es5/tex-svg.js\"></script>";

pub const SEARCH_OPEN: &'static str = "<div class=\"fixed inset-0 z-[100] flex\" id=\"VPLocalSearchBox\" x-cloak x-show=\"$store.ui.search\" x-data=\"searchModal\" data-index-url=\"";

pub const SEARCH_REST: &'static str = "\" role=\"dialog\" aria-modal=\"true\"><div class=\"absolute inset-0 bg-(--vp-backdrop-bg-color) transition-opacity duration-500\" id=\"VPSearchBackdrop\" @click=\"close()\"></div><div class=\"relative p-3 my-16 mx-auto flex flex-col gap-4 bg-(--vp-local-search-bg) w-[min(100vw-3.75rem,56.25rem)] h-min max-h-[min(100vh-8rem,56.25rem)] rounded-md max-md:my-0 max-md:w-screen max-md:h-screen max-md:max-h-none max-md:rounded-none\"><form class=\"border border-divider rounded-[0.25rem] flex items-center px-3 cursor-text focus-within:border-brand-1 max-md:px-2\" id=\"VPSearchBar\" onsubmit=\"return false\"><label id=\"localsearch-label\" for=\"localsearch-input\" title=\"Search\"><svg class=\"inline-block size-[1em] block m-2 text-[1.125rem] max-md:hidden\" viewBox=\"0 0 24 24\" fill=\"none\" stroke=\"currentColor\" stroke-linecap=\"round\" stroke-linejoin=\"round\" stroke-width=\"2\" aria-hidden=\"true\"><path d=\"m21 21l-4.34-4.34\"/><circle cx=\"11\" cy=\"11\" r=\"8\"/></svg></label><input class=\"py-[0.375rem] px-3 w-full placeholder:text-text-3 [&amp;::-webkit-search-cancel-button]:hidden\" id=\"localsearch-input\" x-ref=\"input\" x-model=\"q\" @input.debounce.200ms=\"search()\" @keydown.arrow-down.prevent=\"move(1)\" @keydown.arrow-up.prevent=\"move(-1)\" @keydown.enter.prevent=\"enter()\" aria-labelledby=\"localsearch-label\" autocomplete=\"off\" autocapitalize=\"off\" autocorrect=\"off\" spellcheck=\"false\" maxlength=\"64\" type=\"search\" placeholder=\"Search docs\"><div class=\"flex gap-1\"><button type=\"button\" class=\"p-2 not-disabled:hover:text-brand-1 cursor-pointer\" id=\"VPSearchClear\" title=\"Clear\" @click=\"clear()\" :disabled=\"q.trim() === ''\"><svg class=\"inline-block size-[1em] \" viewBox=\"0 0 24 24\" fill=\"none\" stroke=\"currentColor\" stroke-linecap=\"round\" stroke-linejoin=\"round\" stroke-width=\"2\" aria-hidden=\"true\"><path d=\"M10 5a2 2 0 0 0-1.344.519l-6.328 5.74a1 1 0 0 0 0 1.481l6.328 5.741A2 2 0 0 0 10 19h10a2 2 0 0 0 2-2V7a2 2 0 0 0-2-2zm2 4l6 6m0-6l-6 6\"/></svg></button></div></form><ul class=\"flex flex-col gap-[0.375rem] overflow-x-hidden overflow-y-auto overscroll-contain [&amp;_.result]:flex [&amp;_.result]:items-center [&amp;_.result]:gap-2 [&amp;_.result]:rounded-[0.25rem] [&amp;_.result]:leading-none [&amp;_.result]:border-2 [&amp;_.result]:border-solid [&amp;_.result]:border-(--vp-local-search-result-border) [&amp;_.result]:outline-none [&amp;_.result&gt;div]:m-3 [&amp;_.result&gt;div]:w-full [&amp;_.result&gt;div]:overflow-hidden max-md:[&amp;_.result&gt;div]:m-2 [&amp;_.titles]:flex [&amp;_.titles]:flex-wrap [&amp;_.titles]:gap-1 [&amp;_.titles]:relative [&amp;_.titles]:z-[1001] [&amp;_.titles]:py-[0.125rem] [&amp;_.title]:flex [&amp;_.title]:items-center [&amp;_.title]:gap-1 [&amp;_.title]:text-[0.875rem] [&amp;_.title]:leading-[1.6] [&amp;_.title.main]:font-medium [&amp;_.title]:after:content-['/'] [&amp;_.title]:after:opacity-50 [&amp;_.title]:after:font-medium [&amp;_.title:last-child]:after:content-none [&amp;_.excerpt]:opacity-50 [&amp;_.excerpt]:pointer-events-none [&amp;_.excerpt]:max-h-[8.75rem] [&amp;_.excerpt]:overflow-hidden [&amp;_.excerpt]:relative [&amp;_.excerpt]:mt-1 [&amp;_.result.selected]:border-(--vp-local-search-result-selected-border) [&amp;_.result.selected_.excerpt]:opacity-100 [&amp;_.no-results]:py-4 [&amp;_.no-results]:px-3 [&amp;_.no-results]:text-[0.875rem] [&amp;_.no-results]:text-text-2 [&amp;_mark]:bg-(--vp-local-search-highlight-bg) [&amp;_mark]:text-(--vp-local-search-highlight-text) [&amp;_mark]:rounded-[0.125rem] [&amp;_mark]:px-[0.125rem]\" id=\"VPSearchResults\" x-ref=\"results\" x-html=\"resultsHtml\" @click=\"pick($event)\" :class=\"(results.length) ? '' : 'flex-1'\" role=\"listbox\" aria-labelledby=\"localsearch-label\"></ul><div class=\"text-[0.8rem] opacity-75 flex flex-wrap gap-4 leading-[1.09375] max-md:hidden\" id=\"VPSearchShortcuts\"><span class=\"flex items-center gap-1\"><kbd class=\"bg-[rgba(128,128,128,0.1)] rounded-[0.25rem] px-[0.375rem] py-[0.1875rem] min-w-6 inline-block text-center align-middle border border-[rgba(128,128,128,0.15)] shadow-[0_2px_2px_0_rgba(0,0,0,0.1)] font-[inherit]\">←</kbd><kbd class=\"bg-[rgba(128,128,128,0.1)] rounded-[0.25rem] px-[0.375rem] py-[0.1875rem] min-w-6 inline-block text-center align-middle border border-[rgba(128,128,128,0.15)] shadow-[0_2px_2px_0_rgba(0,0,0,0.1)] font-[inherit]\">→</kbd> to navigate</span><span class=\"flex items-center gap-1\"><kbd class=\"bg-[rgba(128,128,128,0.1)] rounded-[0.25rem] px-[0.375rem] py-[0.1875rem] min-w-6 inline-block text-center align-middle border border-[rgba(128,128,128,0.15)] shadow-[0_2px_2px_0_rgba(0,0,0,0.1)] font-[inherit]\">Enter</kbd> to select</span><span class=\"flex items-center gap-1\"><kbd class=\"bg-[rgba(128,128,128,0.1)] rounded-[0.25rem] px-[0.375rem] py-[0.1875rem] min-w-6 inline-block text-center align-middle border border-[rgba(128,128,128,0.15)] shadow-[0_2px_2px_0_rgba(0,0,0,0.1)] font-[inherit]\">Esc</kbd> to close</span></div></div></div>";

/// The local search box, reading its index from `search-docs.json`.
pub open spec fn spec_search_modal(base: Seq<char>) -> Seq<char> {
    SEARCH_OPEN@ + escape_seq(spec_site_url(base, "search-docs.json"@)) + SEARCH_REST@
}

/// What the shell needs to know of the current page.
pub struct Shell {
    pub title: String,
    pub description: String,
    pub is_home: bool,
    pub has_navbar: bool,
    pub has_sidebar: bool,
    pub show_footer: bool,
    /// Extra class on the content container (front matter `pageClass`).
    pub page_class: Option<String>,
    /// Serialized per-page `head` tags, appended after the site's.
    pub head_extra: String,
    /// Current page URL (canonical, base-free) for active matching.
    pub current_url: String,
    /// The page contains math: load MathJax.
    pub has_math: bool,
    /// `lang` attribute (locale-aware).
    pub lang: String,
    /// (label, href, current) language switcher entries.
    pub translations: Vec<(String, String, bool)>,
    /// The navbar title (`None`: hidden by `siteTitle: false`).
    pub site_title: Option<String>,
}

/// A stylesheet link to `path` under the base.
pub open spec fn stylesheet(base: Seq<char>, path: Seq<char>) -> Seq<char> {
    STYLESHEET_OPEN@ + escape_seq(spec_site_url(base, path)) + "\">"@
}

/// The content container's classes: with or without the sidebar gutter,
/// then the page's own class.
pub open spec fn content_class(has_sidebar: bool, page_class: Option<String>) -> Seq<char> {
    (if has_sidebar {
        CONTENT_WITH_SIDEBAR@
    } else {
        CONTENT_PLAIN@
    }) + match page_class {
        Some(c) => " "@ + c@,
        None => Seq::empty(),
    }
}

pub open spec fn footer_line(o: Option<String>) -> Seq<char> {
    match o {
        Some(m) => FOOTER_LINE@ + m@ + "</p>"@,
        None => Seq::empty(),
    }
}

/// The footer, when the page shows one and the site has one; hidden
/// beside a sidebar.
pub open spec fn footer_part(site: Site, shell: Shell) -> Seq<char> {
    match site.config.footer {
        Some(f) => if shell.show_footer {
            FOOTER_OPEN@ + opt_lit(shell.has_sidebar, " hidden"@) + FOOTER_INNER@ + footer_line(f.message) + footer_line(
                f.copyright,
            ) + "</div></footer>"@
        } else {
            Seq::empty()
        },
        None => Seq::empty(),
    }
}

/// The head, from `<html>` to the end of the site's and page's head tags.
pub open spec fn head_part(site: Site, shell: Shell) -> Seq<char> {
    let base = site.config.base@;
    "<html lang=\""@ + escape_seq(shell.lang@) + HTML_CLASS_OPEN@ + text_escape(shell.title@) + DESCRIPTION_OPEN@
        + escape_seq(shell.description@) + "\">"@ + stylesheet(base, "syntax.css"@) + stylesheet(base, "main.css"@)
        + opt_lit(site.theme_css is Some, stylesheet(base, "theme.css"@)) + spec_appearance_script(
        site.config.appearance,
    ) + opt_lit(shell.has_math, MATHJAX_SCRIPT@) + spec_head_tags(site.config.head@) + shell.head_extra@
}

/// The whole document around the page body: head, navbar and mobile
/// menu (with a navbar), local nav, sidebar, the body, footer, search box
/// (with search) and the script tag; `headings` feed the local outline.
pub open spec fn spec_layout(site: Site, shell: Shell, headings: Seq<Heading>, body: Seq<char>) -> Seq<char> {
    let base = site.config.base@;
    let cur = shell.current_url@;
    head_part(site, shell) + BODY_OPEN@ + text_escape(site.config.skip_to_content_label@) + BACKDROP@ + opt_lit(
        shell.has_navbar,
        HEADER_OPEN@ + spec_navbar(site, cur, shell.is_home, shell.has_sidebar, shell.translations@, shell.site_title)
            + spec_nav_screen(site, cur) + "</header>"@,
    ) + spec_local_nav(site, shell.is_home, shell.has_sidebar, headings) + spec_sidebar_for(
        base,
        site.sidebars.trees@,
        cur,
    ) + "<div class=\""@ + escape_seq(content_class(shell.has_sidebar, shell.page_class)) + "\" id=\"VPContent\">"@
        + body + "</div>"@ + footer_part(site, shell) + opt_lit(site.config.search is Some, spec_search_modal(base))
        + "<script src=\""@ + escape_seq(spec_site_url(base, "js/app.js"@)) + "\" defer></script></body></html>"@
}

fn push_stylesheet(site: &Site, path: &str, out: &mut Vec<char>)
    ensures
        final(out)@ == old(out)@ + stylesheet(site.config.base@, path@),
{
    let ghost start = out@;
    push_str(out, STYLESHEET_OPEN);
    let u = site.url(path);
    push_escaped(out, &to_chars(u.as_str()));
    push_str(out, "\">");
    assert(out@ =~= start + stylesheet(site.config.base@, path@));
}

#[verifier::spinoff_prover]
#[verifier::rlimit(40)]
fn push_head(site: &Site, shell: &Shell, out: &mut Vec<char>)
    ensures
        final(out)@ == old(out)@ + head_part(*site, *shell),
{
    let ghost start = out@;
    push_str(out, "<html lang=\"");
    push_escaped(out, &to_chars(shell.lang.as_str()));
    push_str(out, HTML_CLASS_OPEN);
    push_text_escaped(out, &to_chars(shell.title.as_str()));
    push_str(out, DESCRIPTION_OPEN);
    push_escaped(out, &to_chars(shell.description.as_str()));
    push_str(out, "\">");
    let ghost s0 = out@;
    push_stylesheet(site, "syntax.css", out);
    push_stylesheet(site, "main.css", out);
    let ghost s1 = out@;
    if site.theme_css.is_some() {
        push_stylesheet(site, "theme.css", out);
    }
    assert(out@ =~= s1 + opt_lit(site.theme_css is Some, stylesheet(site.config.base@, "theme.css"@)));
    let ghost s2 = out@;
    let script = appearance_script(&site.config.appearance);
    push_str(out, script.as_str());
    push_opt(out, shell.has_math, MATHJAX_SCRIPT);
    let tags = serialize_head_tags(&site.config.head);
    push_str(out, tags.as_str());
    push_str(out, shell.head_extra.as_str());
    assert(out@ =~= start + head_part(*site, *shell));
}

fn push_footer_line(o: &Option<String>, out: &mut Vec<char>)
    ensures
        final(out)@ == old(out)@ + footer_line(*o),
{
    let ghost start = out@;
    match o {
        Some(m) => {
            push_str(out, FOOTER_LINE);
            push_str(out, m.as_str());
            push_str(out, "</p>");
        },
        None => {},
    }
    assert(out@ =~= start + footer_line(*o));
}

#[verifier::spinoff_prover]
fn push_footer(site: &Site, shell: &Shell, out: &mut Vec<char>)
    ensures
        final(out)@ == old(out)@ + footer_part(*site, *shell),
{
    let ghost start = out@;
    match &site.config.footer {
        Some(f) => {
            if shell.show_footer {
                push_str(out, FOOTER_OPEN);
                push_opt(out, shell.has_sidebar, " hidden");
                push_str(out, FOOTER_INNER);
                push_footer_line(&f.message, out);
                push_footer_line(&f.copyright, out);
                push_str(out, "</div></footer>");
            }
        },
        None => {},
    }
    assert(out@ =~= start + footer_part(*site, *shell));
}

fn push_content_open(shell: &Shell, out: &mut Vec<char>)
    ensures
        final(out)@ == old(out)@ + "<div class=\""@ + escape_seq(content_class(shell.has_sidebar, shell.page_class))
            + "\" id=\"VPContent\">"@,
{
    let mut cls = to_chars(if shell.has_sidebar {
        CONTENT_WITH_SIDEBAR
    } else {
        CONTENT_PLAIN
    });
    match &shell.page_class {
        Some(c) => {
            push_str(&mut cls, " ");
            push_str(&mut cls, c.as_str());
        },
        None => {},
    }
    assert(cls@ =~= content_class(shell.has_sidebar, shell.page_class));
    push_str(out, "<div class=\"");
    push_escaped(out, &cls);
    push_str(out, "\" id=\"VPContent\">");
}

#[verifier::spinoff_prover]
fn push_header(site: &Site, shell: &Shell, out: &mut Vec<char>)
    ensures
        final(out)@ == old(out)@ + opt_lit(
            shell.has_navbar,
            HEADER_OPEN@ + spec_navbar(
                *site,
                shell.current_url@,
                shell.is_home,
                shell.has_sidebar,
                shell.translations@,
                shell.site_title,
            ) + spec_nav_screen(*site, shell.current_url@) + "</header>"@,
        ),
{
    let ghost start = out@;
    if shell.has_navbar {
        push_str(out, HEADER_OPEN);
        let bar = navbar_html(
            site,
            shell.current_url.as_str(),
            shell.is_home,
            shell.has_sidebar,
            &shell.translations,
            &shell.site_title,
        );
        push_str(out, bar.as_str());
        let screen = nav_screen_html(site, shell.current_url.as_str());
        push_str(out, screen.as_str());
        push_str(out, "</header>");
    }
    assert(out@ =~= start + opt_lit(
        shell.has_navbar,
        HEADER_OPEN@ + spec_navbar(
            *site,
            shell.current_url@,
            shell.is_home,
            shell.has_sidebar,
            shell.translations@,
            shell.site_title,
        ) + spec_nav_screen(*site, shell.current_url@) + "</header>"@,
    ));
}

fn push_search(site: &Site, out: &mut Vec<char>)
    ensures
        final(out)@ == old(out)@ + opt_lit(site.config.search is Some, spec_search_modal(site.config.base@)),
{
    let ghost start = out@;
    if site.config.search.is_some() {
        push_str(out, SEARCH_OPEN);
        let u = site.url("search-docs.json");
        push_escaped(out, &to_chars(u.as_str()));
        push_str(out, SEARCH_REST);
    }
    assert(out@ =~= start + opt_lit(site.config.search is Some, spec_search_modal(site.config.base@)));
}

/// The whole HTML document of a page around its rendered body.
#[verifier::spinoff_prover]
pub fn layout_html(site: &Site, shell: &Shell, headings: &Vec<Heading>, body: &str) -> (r: String)
    ensures
        r@ == spec_layout(*site, *shell, headings@, body@),
{
    let mut out: Vec<char> = Vec::new();
    push_head(site, shell, &mut out);
    let ghost s0 = out@;
    push_str(&mut out, BODY_OPEN);
    push_text_escaped(&mut out, &to_chars(site.config.skip_to_content_label.as_str()));
    push_str(&mut out, BACKDROP);
    let ghost s1 = out@;
    push_header(site, shell, &mut out);
    let ghost s2 = out@;
    let local = local_nav_html(site, shell.is_home, shell.has_sidebar, headings);
    push_str(&mut out, local.as_str());
    let side = sidebar_html(site, shell.current_url.as_str());
    push_str(&mut out, side.as_str());
    let ghost s3 = out@;
    push_content_open(shell, &mut out);
    push_str(&mut out, body);
    push_str(&mut out, "</div>");
    let ghost s4 = out@;
    push_footer(site, shell, &mut out);
    let ghost s5 = out@;
    push_search(site, &mut out);
    push_str(&mut out, "<script src=\"");
    let app_js = site.url("js/app.js");
    push_escaped(&mut out, &to_chars(app_js.as_str()));
    push_str(&mut out, "\" defer></script></body></html>");
    assert(out@ =~= spec_layout(*site, *shell, headings@, body@));
    from_chars(&out)
}

} // verus!
