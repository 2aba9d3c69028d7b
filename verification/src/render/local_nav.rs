//! The local nav: the sticky bar under the navbar on narrow screens,
//! with the sidebar menu button and the outline dropdown; none on the
//! home page.

use vstd::prelude::*;

use crate::markdown::preprocess::{escape_seq, push_escaped};
use crate::markdown::Heading;
use crate::render::doc::{push_text_escaped, text_escape};
use crate::render::sidebar::{opt_lit, push_opt};
use crate::render::{spec_site_url, Site};
use crate::text::{from_chars, push_str, to_chars};

verus! {

broadcast use vstd::string::group_string_axioms;

pub const LOCAL_NAV_OPEN: &'static str = "<div class=\"sticky top-0 left-0 z-(--vp-z-index-local-nav) w-full pt-[var(--vp-layout-top-height,0px)] border-b border-(--vp-local-nav-divider-color) [&amp;::before]:content-[''] [&amp;::before]:absolute [&amp;::before]:inset-0 [&amp;::before]:z-[-1] [&amp;::before]:bg-(--vp-local-nav-bg-color) [&amp;::before]:[backdrop-filter:var(--vp-nav-backdrop-filter)] [&amp;::before]:transition-colors [&amp;::before]:duration-[250ms] lg:top-(--vp-nav-height) lg:[&amp;::before]:top-[calc(-1*var(--vp-nav-height))]";

pub const LOCAL_NAV_ROW: &'static str = " xl:hidden\" id=\"VPLocalNav\"><div class=\"flex justify-between items-center\">";

pub const LOCAL_MENU_BUTTON: &'static str = "<button type=\"button\" class=\"flex items-center py-[0.75rem] px-6 pb-[0.6875rem] leading-[2] text-[0.75rem] font-medium text-text-2 transition-colors duration-500 hover:text-text-1 hover:duration-[250ms] cursor-pointer lg:hidden md:px-8\" id=\"VPLocalNavMenu\" aria-expanded=\"false\" aria-controls=\"VPSidebarNav\"><svg class=\"inline-block size-[1em] mr-2 size-[0.875rem]\" viewBox=\"0 0 24 24\" fill=\"none\" stroke=\"currentColor\" stroke-linecap=\"round\" stroke-linejoin=\"round\" stroke-width=\"2\" aria-hidden=\"true\"><path d=\"M15 12H3m14 6H3M21 6H3\"/></svg><span>Menu</span></button>";

pub const LOCAL_DROPDOWN_OPEN: &'static str = "<div id=\"VPLocalNavOutlineDropdown\"><button type=\"button\" class=\"group/drop relative block py-[0.75rem] px-6 pb-[0.6875rem] leading-[2] text-[0.75rem] font-medium text-text-2 transition-colors duration-500 hover:text-text-1 hover:duration-[250ms] cursor-pointer [&amp;.open]:text-text-1 md:px-8 lg:text-[0.875rem]\" id=\"VPOutlineDropdownButton\" aria-expanded=\"false\" aria-controls=\"VPOutlineDropdownItems\"><span>";

pub const LOCAL_DROPDOWN_ITEMS: &'static str = "</span><svg class=\"inline-block size-[1em] inline-block align-middle ml-[0.125rem] size-[0.875rem] transition-transform duration-[250ms] group-[.open]/drop:rotate-90 lg:size-[1rem]\" viewBox=\"0 0 24 24\" fill=\"none\" stroke=\"currentColor\" stroke-linecap=\"round\" stroke-linejoin=\"round\" stroke-width=\"2\" aria-hidden=\"true\"><path d=\"m9 18l6-6l-6-6\"/></svg></button><div class=\"absolute top-10 right-4 left-4 grid gap-px border border-border rounded-lg bg-gutter max-h-[calc(var(--vp-vh,100vh)-5.375rem)] overflow-x-hidden overflow-y-auto overscroll-contain shadow-3 lg:right-auto lg:left-[calc(var(--vp-sidebar-width)+2rem)] lg:w-80\" id=\"VPOutlineDropdownItems\" hidden><div class=\"bg-bg-soft\"><a class=\"block px-4 leading-[3.4285714] text-[0.875rem] font-medium text-brand-1\" href=\"";

pub const LOCAL_OUTLINE_LIST: &'static str = "\">Return to top</a></div><div class=\"py-2 bg-bg-soft\"><ul class=\"relative z-[1]\">";

pub const LOCAL_OUTLINE_LINK: &'static str = "<li><a class=\"outline-link block leading-[2.2857143] text-[0.875rem] text-text-2 whitespace-nowrap overflow-hidden text-ellipsis transition-colors duration-500 hover:text-text-1 hover:duration-[250ms] [&amp;.active]:text-text-1 scroll-mt-[calc(var(--vp-nav-height)+var(--vp-layout-top-height,0px)+var(--vp-doc-top-height,0px)+2rem)] scroll-mb-12 pl-[0.8125rem]\" href=\"";

/// One flat outline entry, linking the heading's anchor.
pub open spec fn outline_entry(h: Heading) -> Seq<char> {
    LOCAL_OUTLINE_LINK@ + escape_seq("#"@ + h.id@) + "\" title=\""@ + escape_seq(h.text@) + "\">"@ + text_escape(h.text@)
        + "</a></li>"@
}

pub open spec fn outline_entries(hs: Seq<Heading>) -> Seq<char>
    decreases hs.len(),
{
    if hs.len() == 0 {
        Seq::empty()
    } else {
        outline_entries(hs.drop_last()) + outline_entry(hs.last())
    }
}

/// The local nav of a page with `headings`: nothing on the home page; a
/// menu button beside a sidebar; the outline dropdown with a link back
/// to the top.
pub open spec fn spec_local_nav(site: Site, is_home: bool, has_sidebar: bool, headings: Seq<Heading>) -> Seq<char> {
    let label = match site.config.outline {
        crate::config::OutlineConfig::Full(o) => o.label@,
        _ => "On this page"@,
    };
    if is_home {
        Seq::empty()
    } else {
        LOCAL_NAV_OPEN@ + opt_lit(has_sidebar, " lg:pl-(--vp-sidebar-width)"@) + LOCAL_NAV_ROW@ + opt_lit(
            has_sidebar,
            LOCAL_MENU_BUTTON@,
        ) + LOCAL_DROPDOWN_OPEN@ + text_escape(label) + LOCAL_DROPDOWN_ITEMS@ + escape_seq(
            spec_site_url(site.config.base@, "/"@),
        ) + LOCAL_OUTLINE_LIST@ + outline_entries(headings) + "</ul></div></div></div></div></div>"@
    }
}

fn push_outline_entry(h: &Heading, out: &mut Vec<char>)
    ensures
        final(out)@ == old(out)@ + outline_entry(*h),
{
    let ghost start = out@;
    push_str(out, LOCAL_OUTLINE_LINK);
    let mut anchor = to_chars("#");
    push_str(&mut anchor, h.id.as_str());
    push_escaped(out, &anchor);
    push_str(out, "\" title=\"");
    let text = to_chars(h.text.as_str());
    push_escaped(out, &text);
    push_str(out, "\">");
    push_text_escaped(out, &text);
    push_str(out, "</a></li>");
    assert(out@ =~= start + outline_entry(*h));
}

/// The local nav markup (see `spec_local_nav`).
#[verifier::spinoff_prover]
pub fn local_nav_html(site: &Site, is_home: bool, has_sidebar: bool, headings: &Vec<Heading>) -> (r: String)
    ensures
        r@ == spec_local_nav(*site, is_home, has_sidebar, headings@),
{
    if is_home {
        return String::new();
    }
    let label = site.config.outline.label();
    let mut out = to_chars(LOCAL_NAV_OPEN);
    push_opt(&mut out, has_sidebar, " lg:pl-(--vp-sidebar-width)");
    push_str(&mut out, LOCAL_NAV_ROW);
    push_opt(&mut out, has_sidebar, LOCAL_MENU_BUTTON);
    push_str(&mut out, LOCAL_DROPDOWN_OPEN);
    push_text_escaped(&mut out, &to_chars(label.as_str()));
    push_str(&mut out, LOCAL_DROPDOWN_ITEMS);
    let root = site.url("/");
    push_escaped(&mut out, &to_chars(root.as_str()));
    push_str(&mut out, LOCAL_OUTLINE_LIST);
    let ghost s0 = out@;
    let mut i: usize = 0;
    assert(headings@.take(0) =~= Seq::<Heading>::empty());
    while i < headings.len()
        invariant
            i <= headings.len(),
            out@ == s0 + outline_entries(headings@.take(i as int)),
        decreases headings.len() - i,
    {
        proof {
            assert(headings@.take(i as int + 1).drop_last() =~= headings@.take(i as int));
        }
        push_outline_entry(&headings[i], &mut out);
        i += 1;
    }
    assert(headings@.take(i as int) =~= headings@);
    push_str(&mut out, "</ul></div></div></div></div></div>");
    assert(out@ =~= spec_local_nav(*site, is_home, has_sidebar, headings@));
    from_chars(&out)
}

} // verus!
