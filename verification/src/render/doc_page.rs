//! The doc page: the outline aside, the `.vp-doc` content, and the doc
//! footer (edit link, last updated, prev/next pager).

use vstd::prelude::*;

use crate::config::PagerLabel;
use crate::content::Page;
use crate::markdown::preprocess::{escape_seq, push_escaped};
use crate::markdown::{replace_all, replace_all_v, Heading, RenderedPage};
use crate::render::doc::{
    heading_entry, in_range, outline_headings, outline_links, pager_label, push_text_escaped, spec_outline_links,
    spec_pager_label, text_escape,
};
use crate::render::sidebar::{opt_lit, push_opt};
use crate::render::vpdoc::{vpdoc_class, VPDOC_CLASSES, VPDOC_CLASSES_2};
use crate::render::{spec_site_url, Site};
use crate::text::{eq_str, from_chars, push_str, to_chars};

verus! {

broadcast use vstd::string::group_string_axioms;

pub const DOC_OPEN: &'static str = "<div class=\"w-full pt-8 px-6 pb-24 md:pt-12 md:pb-32 md:px-8 lg:pt-12 lg:pb-0 lg:px-8\" x-data=\"docPage\"><div class=\"";

pub const WRAPPER_WITH_SIDEBAR: &'static str = "mx-auto w-full xl:flex xl:justify-center";

pub const WRAPPER_PLAIN: &'static str = "mx-auto w-full lg:flex lg:justify-center lg:max-w-[62rem] 2xl:max-w-[69rem]";

pub const ASIDE_CLASS: &'static str = "<div class=\"relative hidden grow pl-8 w-full max-w-64 xl:block";

pub const ASIDE_SCROLL: &'static str = "\"><div class=\"fixed bottom-0 z-10 w-56 h-8 bg-[linear-gradient(transparent,var(--vp-c-bg)_70%)] pointer-events-none\"></div><div class=\"fixed top-0 pt-[calc(var(--vp-nav-height)+var(--vp-layout-top-height,0px)+var(--vp-doc-top-height,0px)+3rem)] w-56 h-screen overflow-x-hidden overflow-y-auto [scrollbar-width:none] [&amp;::-webkit-scrollbar]:hidden\"><div class=\"flex flex-col grow min-h-[calc(100vh-(var(--vp-nav-height)+var(--vp-layout-top-height,0px)+3rem))] pb-8\"><div class=\"flex flex-col grow\">";

pub const OUTLINE_OPEN: &'static str = "<nav class=\"VPDocAsideOutline block\" aria-labelledby=\"doc-outline-aria-label\"><div class=\"relative border-l border-divider pl-4 text-[0.8125rem] font-medium\"><div class=\"absolute top-8 left-[-1px] z-0 opacity-0 w-[2px] rounded-[2px] h-[1.125rem] bg-brand-1 [transition:top_0.25s_cubic-bezier(0.1,1,0.5,1),background-color_0.5s,opacity_0.25s]\" id=\"VPOutlineMarker\"></div><div class=\"leading-[2.2857143] text-[0.875rem] font-semibold\" id=\"doc-outline-aria-label\" role=\"heading\" aria-level=\"2\">";

pub const ASIDE_CLOSE: &'static str = "<div class=\"grow\"></div></div></div></div></div>";

pub const CONTENT_CLASS: &'static str = "relative mx-auto w-full lg:px-8 lg:pb-32 xl:m-0 xl:min-w-[40rem]";

pub const MAIN_OPEN: &'static str = "\"><div class=\"mx-auto max-w-[43rem]\"><main><div id=\"main\" class=\"";

pub const FOOTER_ROW: &'static str = "<div class=\"pb-[1.125rem] sm:flex sm:justify-between sm:items-center sm:pb-[0.875rem]\">";

pub const EDIT_OPEN: &'static str = "<div class=\"edit-link\"><a class=\"flex items-center border-0 leading-[2.2857143] text-[0.875rem] font-medium text-brand-1 transition-colors duration-[250ms] hover:text-brand-2\" href=\"";

pub const EDIT_ICON: &'static str = "\"><svg class=\"inline-block size-[1em] mr-2\" viewBox=\"0 0 24 24\" fill=\"none\" stroke=\"currentColor\" stroke-linecap=\"round\" stroke-linejoin=\"round\" stroke-width=\"2\" aria-hidden=\"true\"><path d=\"M12 3H5a2 2 0 0 0-2 2v14a2 2 0 0 0 2 2h14a2 2 0 0 0 2-2v-7\"/><path d=\"M18.375 2.625a1 1 0 0 1 3 3l-9.013 9.014a2 2 0 0 1-.853.505l-2.873.84a.5.5 0 0 1-.62-.62l.84-2.873a2 2 0 0 1 .506-.852z\"/></svg>";

pub const UPDATED_OPEN: &'static str = "<div class=\"last-updated\"><p class=\"VPDocFooterLastUpdated text-[0.875rem] leading-[1.7142857] sm:leading-[2.2857143] text-text-2\">";

pub const PAGER_OPEN: &'static str = "<nav class=\"border-t border-divider pt-6 grid gap-y-2 sm:grid-cols-2 sm:gap-x-4\" aria-labelledby=\"doc-footer-aria-label\"><span class=\"sr-only\" id=\"doc-footer-aria-label\">Pager</span><div class=\"pager\">";

pub const PREV_OPEN: &'static str = "<a class=\"block border border-divider rounded-lg px-4 pt-[0.6875rem] pb-[0.8125rem] w-full h-full transition-colors duration-[250ms] hover:border-brand-1\" href=\"";

pub const NEXT_OPEN: &'static str = "<a class=\"block border border-divider rounded-lg px-4 pt-[0.6875rem] pb-[0.8125rem] w-full h-full transition-colors duration-[250ms] hover:border-brand-1 ml-auto text-right\" href=\"";

pub const PAGER_LABEL_OPEN: &'static str = "\"><span class=\"block leading-[1.6666667] text-[0.75rem] font-medium text-text-2\">";

pub const PAGER_TEXT_OPEN: &'static str = "</span><span class=\"block leading-[1.4285714] text-[0.875rem] font-medium text-brand-1 transition-colors duration-[250ms]\">";

pub const EDIT_TEXT_DEFAULT: &'static str = "Edit this page on GitHub";

// ── what the page shows ────────────────────────────────────────────────

/// The edit link (href, text): the pattern with `:path` replaced by the
/// page's source path, when the site has one and the page allows it.
pub open spec fn edit_link_of(site: Site, page: Page, edit_on: bool) -> Option<(Seq<char>, Seq<char>)> {
    match site.config.edit_link {
        Some(e) => if edit_on {
            Some(
                (
                    replace_all(e.pattern@, ":path"@, page.rel@),
                    match e.text {
                        Some(t) => t@,
                        None => EDIT_TEXT_DEFAULT@,
                    },
                ),
            )
        } else {
            None
        },
        None => None,
    }
}

pub open spec fn prev_setting(site: Site) -> Option<PagerLabel> {
    match site.config.doc_footer {
        Some(d) => d.prev,
        None => None,
    }
}

pub open spec fn next_setting(site: Site) -> Option<PagerLabel> {
    match site.config.doc_footer {
        Some(d) => d.next,
        None => None,
    }
}

/// A pager side as (label, text, url): the sidebar neighbour (text, url)
/// under its label, unless `docFooter` turned that side off.
pub open spec fn pager_side(entry: Option<(String, String)>, label: Option<PagerLabel>, default: Seq<char>) -> Option<
    (Seq<char>, Seq<char>, Seq<char>),
> {
    match spec_pager_label(label, default) {
        Ok(l) => match entry {
            Some(e) => Some((l, e.0@, e.1@)),
            None => None,
        },
        Err(_) => None,
    }
}

/// The outline's headings: those in the level range, none without one.
pub open spec fn outline_of(headings: Seq<Heading>, outline: Option<(u8, u8)>) -> Seq<Heading> {
    match outline {
        Some((lo, hi)) => in_range(headings, lo, hi),
        None => Seq::empty(),
    }
}

// ── markup ─────────────────────────────────────────────────────────────

/// The right-hand aside (left with `aside: left`), with the outline when
/// it has headings.
pub open spec fn aside_part(label: Seq<char>, hs: Seq<Heading>, aside: Option<bool>) -> Seq<char> {
    match aside {
        Some(left) => ASIDE_CLASS@ + (if left {
            " xl:order-1"@
        } else {
            " order-2"@
        }) + ASIDE_SCROLL@ + opt_lit(
            hs.len() > 0,
            OUTLINE_OPEN@ + text_escape(label) + "</div>"@ + spec_outline_links(
                hs.map_values(|h: Heading| heading_entry(h)),
            ) + "</div></nav>"@,
        ) + ASIDE_CLOSE@,
        None => Seq::empty(),
    }
}

pub open spec fn content_class(has_sidebar: bool, aside: Option<bool>) -> Seq<char> {
    CONTENT_CLASS@ + (if aside == Some(true) {
        " xl:order-2"@
    } else {
        " xl:order-1"@
    }) + opt_lit(!has_sidebar, " lg:max-w-[47rem] 2xl:max-w-[49rem]"@)
}

pub open spec fn edit_part(edit: Option<(Seq<char>, Seq<char>)>) -> Seq<char> {
    match edit {
        Some(e) => EDIT_OPEN@ + escape_seq(e.0) + EDIT_ICON@ + text_escape(e.1) + "</a></div>"@,
        None => Seq::empty(),
    }
}

pub open spec fn updated_part(label: Seq<char>, last: Option<(String, String)>) -> Seq<char> {
    match last {
        Some(l) => UPDATED_OPEN@ + text_escape(label + ": "@) + "<time datetime=\""@ + escape_seq(l.0@) + "\">"@
            + text_escape(l.1@) + "</time></p></div>"@,
        None => Seq::empty(),
    }
}

pub open spec fn pager_link(base: Seq<char>, open: Seq<char>, side: Option<(Seq<char>, Seq<char>, Seq<char>)>) -> Seq<char> {
    match side {
        Some(s) => open + escape_seq(spec_site_url(base, s.2)) + PAGER_LABEL_OPEN@ + text_escape(s.0) + PAGER_TEXT_OPEN@
            + text_escape(s.1) + "</span></a>"@,
        None => Seq::empty(),
    }
}

/// The edit-link and last-updated row, when either shows.
pub open spec fn footer_row(edit: Option<(Seq<char>, Seq<char>)>, updated_label: Seq<char>, last: Option<(String, String)>) -> Seq<char> {
    opt_lit(
        edit is Some || last is Some,
        FOOTER_ROW@ + edit_part(edit) + updated_part(updated_label, last) + "</div>"@,
    )
}

/// The prev/next pager, when either side shows.
pub open spec fn pager_part(
    base: Seq<char>,
    prev: Option<(Seq<char>, Seq<char>, Seq<char>)>,
    next: Option<(Seq<char>, Seq<char>, Seq<char>)>,
) -> Seq<char> {
    opt_lit(
        prev is Some || next is Some,
        PAGER_OPEN@ + pager_link(base, PREV_OPEN@, prev) + "</div><div class=\"pager\">"@ + pager_link(
            base,
            NEXT_OPEN@,
            next,
        ) + "</div></nav>"@,
    )
}

/// The doc footer, when there is anything to show.
pub open spec fn doc_footer_part(
    base: Seq<char>,
    edit: Option<(Seq<char>, Seq<char>)>,
    updated_label: Seq<char>,
    last: Option<(String, String)>,
    prev: Option<(Seq<char>, Seq<char>, Seq<char>)>,
    next: Option<(Seq<char>, Seq<char>, Seq<char>)>,
) -> Seq<char> {
    if edit is Some || last is Some || prev is Some || next is Some {
        "<footer class=\"mt-16\">"@ + footer_row(edit, updated_label, last) + pager_part(base, prev, next) + "</footer>"@
    } else {
        Seq::empty()
    }
}

/// A doc page: `prev` / `next` are its sidebar neighbours as (text, url),
/// `outline` the heading range (none: no outline), `aside` its side
/// (`Some(true)`: left; none: no aside), `edit_on` whether the edit link
/// may show, `last_updated` the (datetime, display) pair.
pub open spec fn spec_doc_page(
    site: Site,
    page: Page,
    rendered: RenderedPage,
    prev: Option<(String, String)>,
    next: Option<(String, String)>,
    has_sidebar: bool,
    outline: Option<(u8, u8)>,
    aside: Option<bool>,
    edit_on: bool,
    last_updated: Option<(String, String)>,
) -> Seq<char> {
    let label = match site.config.outline {
        crate::config::OutlineConfig::Full(o) => o.label@,
        _ => "On this page"@,
    };
    DOC_OPEN@ + (if has_sidebar {
        WRAPPER_WITH_SIDEBAR@
    } else {
        WRAPPER_PLAIN@
    }) + "\">"@ + aside_part(label, outline_of(rendered.headings@, outline), aside) + "<div class=\""@ + content_class(
        has_sidebar,
        aside,
    ) + MAIN_OPEN@ + escape_seq("vp-doc "@ + VPDOC_CLASSES@ + " "@ + VPDOC_CLASSES_2@) + "\">"@ + rendered.html@
        + "</div></main>"@ + doc_footer_part(
        site.config.base@,
        edit_link_of(site, page, edit_on),
        site.config.last_updated_text@,
        last_updated,
        pager_side(prev, prev_setting(site), "Previous page"@),
        pager_side(next, next_setting(site), "Next page"@),
    ) + "</div></div></div></div>"@
}

// ── rendering ──────────────────────────────────────────────────────────

pub open spec fn view_pair(o: Option<(Vec<char>, Vec<char>)>) -> Option<(Seq<char>, Seq<char>)> {
    match o {
        Some(p) => Some((p.0@, p.1@)),
        None => None,
    }
}

pub open spec fn view_triple(o: Option<(String, String, String)>) -> Option<(Seq<char>, Seq<char>, Seq<char>)> {
    match o {
        Some(t) => Some((t.0@, t.1@, t.2@)),
        None => None,
    }
}

fn edit_link_value(site: &Site, page: &Page, edit_on: bool) -> (r: Option<(Vec<char>, Vec<char>)>)
    ensures
        view_pair(r) == edit_link_of(*site, *page, edit_on),
{
    match &site.config.edit_link {
        Some(e) => {
            if edit_on {
                proof {
                    reveal_strlit(":path");
                }
                let href = replace_all_v(&to_chars(e.pattern.as_str()), ":path", page.rel.as_str());
                let text = match &e.text {
                    Some(t) => to_chars(t.as_str()),
                    None => to_chars(EDIT_TEXT_DEFAULT),
                };
                Some((href, text))
            } else {
                None
            }
        },
        None => None,
    }
}

fn pager_side_value(entry: &Option<(String, String)>, label: &Option<PagerLabel>, default: &str) -> (r: Option<
    (String, String, String),
>)
    ensures
        view_triple(r) == pager_side(*entry, *label, default@),
{
    match pager_label(label, default) {
        Ok(l) => match entry {
            Some(e) => Some((l, e.0.clone(), e.1.clone())),
            None => None,
        },
        Err(_) => None,
    }
}

#[verifier::spinoff_prover]
fn push_aside(label: &String, hs: &Vec<Heading>, aside: Option<bool>, out: &mut Vec<char>)
    ensures
        final(out)@ == old(out)@ + aside_part(label@, hs@, aside),
{
    let ghost start = out@;
    match aside {
        Some(left) => {
            push_str(out, ASIDE_CLASS);
            push_str(out, if left { " xl:order-1" } else { " order-2" });
            push_str(out, ASIDE_SCROLL);
            let ghost s0 = out@;
            if hs.len() > 0 {
                push_str(out, OUTLINE_OPEN);
                push_text_escaped(out, &to_chars(label.as_str()));
                push_str(out, "</div>");
                let links = outline_links(hs);
                push_str(out, links.as_str());
                push_str(out, "</div></nav>");
            }
            assert(out@ =~= s0 + opt_lit(
                hs@.len() > 0,
                OUTLINE_OPEN@ + text_escape(label@) + "</div>"@ + spec_outline_links(
                    hs@.map_values(|h: Heading| heading_entry(h)),
                ) + "</div></nav>"@,
            ));
            push_str(out, ASIDE_CLOSE);
        },
        None => {},
    }
    assert(out@ =~= start + aside_part(label@, hs@, aside));
}

fn push_edit(edit: &Option<(Vec<char>, Vec<char>)>, out: &mut Vec<char>)
    ensures
        final(out)@ == old(out)@ + edit_part(view_pair(*edit)),
{
    let ghost start = out@;
    match edit {
        Some(e) => {
            push_str(out, EDIT_OPEN);
            push_escaped(out, &e.0);
            push_str(out, EDIT_ICON);
            push_text_escaped(out, &e.1);
            push_str(out, "</a></div>");
        },
        None => {},
    }
    assert(out@ =~= start + edit_part(view_pair(*edit)));
}

#[verifier::spinoff_prover]
fn push_updated(label: &String, last: &Option<(String, String)>, out: &mut Vec<char>)
    ensures
        final(out)@ == old(out)@ + updated_part(label@, *last),
{
    let ghost start = out@;
    match last {
        Some(l) => {
            push_str(out, UPDATED_OPEN);
            let mut lv = to_chars(label.as_str());
            push_str(&mut lv, ": ");
            push_text_escaped(out, &lv);
            push_str(out, "<time datetime=\"");
            push_escaped(out, &to_chars(l.0.as_str()));
            push_str(out, "\">");
            push_text_escaped(out, &to_chars(l.1.as_str()));
            push_str(out, "</time></p></div>");
        },
        None => {},
    }
    assert(out@ =~= start + updated_part(label@, *last));
}

fn push_pager_link(site: &Site, open: &str, side: &Option<(String, String, String)>, out: &mut Vec<char>)
    ensures
        final(out)@ == old(out)@ + pager_link(site.config.base@, open@, view_triple(*side)),
{
    let ghost start = out@;
    match side {
        Some(t) => {
            push_str(out, open);
            let href = site.url(t.2.as_str());
            push_escaped(out, &to_chars(href.as_str()));
            push_str(out, PAGER_LABEL_OPEN);
            push_text_escaped(out, &to_chars(t.0.as_str()));
            push_str(out, PAGER_TEXT_OPEN);
            push_text_escaped(out, &to_chars(t.1.as_str()));
            push_str(out, "</span></a>");
        },
        None => {},
    }
    assert(out@ =~= start + pager_link(site.config.base@, open@, view_triple(*side)));
}

fn push_footer_row(site: &Site, edit: &Option<(Vec<char>, Vec<char>)>, last: &Option<(String, String)>, out: &mut Vec<char>)
    ensures
        final(out)@ == old(out)@ + footer_row(view_pair(*edit), site.config.last_updated_text@, *last),
{
    let ghost start = out@;
    if edit.is_some() || last.is_some() {
        push_str(out, FOOTER_ROW);
        push_edit(edit, out);
        push_updated(&site.config.last_updated_text, last, out);
        push_str(out, "</div>");
    }
    assert(out@ =~= start + footer_row(view_pair(*edit), site.config.last_updated_text@, *last));
}

fn push_pager(site: &Site, prev: &Option<(String, String, String)>, next: &Option<(String, String, String)>, out: &mut Vec<char>)
    ensures
        final(out)@ == old(out)@ + pager_part(site.config.base@, view_triple(*prev), view_triple(*next)),
{
    let ghost start = out@;
    if prev.is_some() || next.is_some() {
        push_str(out, PAGER_OPEN);
        push_pager_link(site, PREV_OPEN, prev, out);
        push_str(out, "</div><div class=\"pager\">");
        push_pager_link(site, NEXT_OPEN, next, out);
        push_str(out, "</div></nav>");
    }
    assert(out@ =~= start + pager_part(site.config.base@, view_triple(*prev), view_triple(*next)));
}

fn push_doc_footer(
    site: &Site,
    edit: &Option<(Vec<char>, Vec<char>)>,
    last: &Option<(String, String)>,
    prev: &Option<(String, String, String)>,
    next: &Option<(String, String, String)>,
    out: &mut Vec<char>,
)
    ensures
        final(out)@ == old(out)@ + doc_footer_part(
            site.config.base@,
            view_pair(*edit),
            site.config.last_updated_text@,
            *last,
            view_triple(*prev),
            view_triple(*next),
        ),
{
    let ghost start = out@;
    if edit.is_some() || last.is_some() || prev.is_some() || next.is_some() {
        push_str(out, "<footer class=\"mt-16\">");
        push_footer_row(site, edit, last, out);
        push_pager(site, prev, next, out);
        push_str(out, "</footer>");
    }
    assert(out@ =~= start + doc_footer_part(
        site.config.base@,
        view_pair(*edit),
        site.config.last_updated_text@,
        *last,
        view_triple(*prev),
        view_triple(*next),
    ));
}

fn push_content_class(has_sidebar: bool, aside: Option<bool>, out: &mut Vec<char>)
    ensures
        final(out)@ == old(out)@ + content_class(has_sidebar, aside),
{
    let ghost start = out@;
    push_str(out, CONTENT_CLASS);
    let left = match aside {
        Some(l) => l,
        None => false,
    };
    push_str(out, if left { " xl:order-2" } else { " xl:order-1" });
    push_opt(out, !has_sidebar, " lg:max-w-[47rem] 2xl:max-w-[49rem]");
    assert(out@ =~= start + content_class(has_sidebar, aside));
}

/// The doc page markup (see `spec_doc_page`).
#[verifier::spinoff_prover]
pub fn doc_page_html(
    site: &Site,
    page: &Page,
    rendered: &RenderedPage,
    prev: &Option<(String, String)>,
    next: &Option<(String, String)>,
    has_sidebar: bool,
    outline: Option<(u8, u8)>,
    aside: Option<bool>,
    edit_on: bool,
    last_updated: &Option<(String, String)>,
) -> (r: String)
    ensures
        r@ == spec_doc_page(*site, *page, *rendered, *prev, *next, has_sidebar, outline, aside, edit_on, *last_updated),
{
    let label = site.config.outline.label();
    let hs = match outline {
        Some((lo, hi)) => outline_headings(&rendered.headings, lo, hi),
        None => Vec::new(),
    };
    assert(hs@ =~= outline_of(rendered.headings@, outline));
    let mut out = to_chars(DOC_OPEN);
    push_str(&mut out, if has_sidebar { WRAPPER_WITH_SIDEBAR } else { WRAPPER_PLAIN });
    push_str(&mut out, "\">");
    let ghost s0 = out@;
    push_aside(&label, &hs, aside, &mut out);
    push_str(&mut out, "<div class=\"");
    push_content_class(has_sidebar, aside, &mut out);
    push_str(&mut out, MAIN_OPEN);
    let cls = vpdoc_class();
    push_escaped(&mut out, &to_chars(cls.as_str()));
    push_str(&mut out, "\">");
    push_str(&mut out, rendered.html.as_str());
    push_str(&mut out, "</div></main>");
    let ghost s1 = out@;
    let edit = edit_link_value(site, page, edit_on);
    let unset: Option<PagerLabel> = None;
    let (fp, fnx): (&Option<PagerLabel>, &Option<PagerLabel>) = match &site.config.doc_footer {
        Some(d) => (&d.prev, &d.next),
        None => (&unset, &unset),
    };
    assert(*fp == prev_setting(*site) && *fnx == next_setting(*site));
    let p = pager_side_value(prev, fp, "Previous page");
    let n = pager_side_value(next, fnx, "Next page");
    push_doc_footer(site, &edit, last_updated, &p, &n, &mut out);
    push_str(&mut out, "</div></div></div></div>");
    assert(out@ =~= spec_doc_page(*site, *page, *rendered, *prev, *next, has_sidebar, outline, aside, edit_on, *last_updated));
    from_chars(&out)
}

// ── a page's body ──────────────────────────────────────────────────────

/// The aside's side by the site setting: hidden by `aside: false`, left
/// by `aside: left`, else right.
pub open spec fn aside_of(config: crate::config::SiteConfig) -> Option<bool> {
    match config.aside {
        Some(crate::config::AsideSetting::Show(false)) => None,
        Some(crate::config::AsideSetting::Left) => Some(true),
        _ => Some(false),
    }
}

/// `layout: page`: the doc page without its chrome.
pub open spec fn is_page_layout(page: Page) -> bool {
    match page.front.layout {
        Some(l) => l@ == "page"@,
        None => false,
    }
}

pub open spec fn is_home_layout(page: Page) -> bool {
    match page.front.layout {
        Some(l) => l@ == "home"@,
        None => false,
    }
}

/// A page's body: the home page for `layout: home`, else the doc page,
/// which `layout: page` strips of its aside, edit link, last-updated
/// time and outline.
pub open spec fn spec_page_body(
    site: Site,
    page: Page,
    rendered: RenderedPage,
    prev: Option<(String, String)>,
    next: Option<(String, String)>,
    has_sidebar: bool,
    outline: Option<(u8, u8)>,
    last_updated: Option<(String, String)>,
) -> Seq<char> {
    if is_home_layout(page) {
        crate::render::home_page::spec_home_page(site.config.base@, site.content.pages@, page.front.hero, page.front.features@)
    } else if is_page_layout(page) {
        spec_doc_page(site, page, rendered, prev, next, has_sidebar, None, None, false, None)
    } else {
        spec_doc_page(site, page, rendered, prev, next, has_sidebar, outline, aside_of(site.config), true, last_updated)
    }
}

/// The body of a page (see `spec_page_body`).
pub fn page_body_html(
    site: &Site,
    page: &Page,
    rendered: &RenderedPage,
    prev: &Option<(String, String)>,
    next: &Option<(String, String)>,
    has_sidebar: bool,
    outline: Option<(u8, u8)>,
    last_updated: &Option<(String, String)>,
) -> (r: String)
    ensures
        r@ == spec_page_body(*site, *page, *rendered, *prev, *next, has_sidebar, outline, *last_updated),
{
    if page.is_home() {
        return crate::render::home_page::home_page_html(site, page);
    }
    let page_layout = match &page.front.layout {
        Some(l) => eq_str(&to_chars(l.as_str()), "page"),
        None => false,
    };
    if page_layout {
        let none: Option<(String, String)> = None;
        doc_page_html(site, page, rendered, prev, next, has_sidebar, None, None, false, &none)
    } else {
        let aside = crate::render::aside_position(&site.config);
        doc_page_html(site, page, rendered, prev, next, has_sidebar, outline, aside, true, last_updated)
    }
}

// ── the 404 page ───────────────────────────────────────────────────────

pub const NOT_FOUND_OPEN: &'static str = "<div class=\"w-full pt-8 px-6 pb-24 md:pt-12 md:pb-32 md:px-8 lg:pt-12 lg:pb-0 lg:px-8\"><div class=\"mx-auto w-full lg:flex lg:justify-center lg:max-w-[62rem] 2xl:max-w-[69rem]\"><div class=\"relative mx-auto w-full lg:px-8 lg:pb-32 xl:order-1 xl:m-0 xl:min-w-[40rem] lg:max-w-[47rem] 2xl:max-w-[49rem]\"><div class=\"mx-auto max-w-[43rem]\"><main><div id=\"main\" class=\"";

/// The 404 page body: its title, quote and a link home.
pub open spec fn spec_not_found_body(base: Seq<char>, title: Seq<char>, quote: Seq<char>, link: Seq<char>) -> Seq<char> {
    NOT_FOUND_OPEN@ + escape_seq("vp-doc "@ + VPDOC_CLASSES@ + " "@ + VPDOC_CLASSES_2@) + "\"><h1>"@ + text_escape(title)
        + "</h1><p>"@ + text_escape(quote) + "</p><p><a href=\""@ + escape_seq(spec_site_url(base, "/"@)) + "\">"@
        + text_escape(link) + "</a></p></div></main></div></div></div></div>"@
}

pub fn not_found_body(site: &Site, title: &str, quote: &str, link: &str) -> (r: String)
    ensures
        r@ == spec_not_found_body(site.config.base@, title@, quote@, link@),
{
    let mut out = to_chars(NOT_FOUND_OPEN);
    let cls = vpdoc_class();
    push_escaped(&mut out, &to_chars(cls.as_str()));
    push_str(&mut out, "\"><h1>");
    push_text_escaped(&mut out, &to_chars(title));
    push_str(&mut out, "</h1><p>");
    push_text_escaped(&mut out, &to_chars(quote));
    push_str(&mut out, "</p><p><a href=\"");
    let home = site.url("/");
    push_escaped(&mut out, &to_chars(home.as_str()));
    push_str(&mut out, "\">");
    push_text_escaped(&mut out, &to_chars(link));
    push_str(&mut out, "</a></p></div></main></div></div></div></div>");
    assert(out@ =~= spec_not_found_body(site.config.base@, title@, quote@, link@));
    from_chars(&out)
}

} // verus!
