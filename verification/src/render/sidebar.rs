//! The sidebar: one `.group` wrapper per root entry, then recursive
//! sections whose classes carry the active, has-active and collapsible
//! state, with a caret on collapsible groups.

use vstd::prelude::*;

use crate::markdown::highlight::{dec, push_dec};
use crate::render::doc::{push_text_escaped, text_escape};
use crate::render::{spec_site_url, Site};
use crate::sidebar::{byte_len, covers, is_best, none_covers, SidebarNode, SidebarTree};
use crate::text::{eq_str, eq_v, from_chars, push_str, starts_with, starts_with_v, to_chars};

verus! {

broadcast use vstd::string::group_string_axioms;

pub const ASIDE_OPEN: &'static str = "<aside class=\"VPSidebar fixed top-[var(--vp-layout-top-height,0px)] bottom-0 left-0 z-(--vp-z-index-sidebar) px-8 pt-8 pb-24 w-[calc(100vw-4rem)] max-w-80 bg-(--vp-sidebar-bg-color) opacity-0 shadow-3 max-lg:dark:shadow-(--vp-shadow-1) overflow-x-hidden overflow-y-auto overscroll-contain -translate-x-full [transition:opacity_0.5s,transform_0.25s_ease] max-lg:[&amp;.open]:opacity-100 max-lg:[&amp;.open]:visible max-lg:[&amp;.open]:translate-x-0 max-lg:[&amp;.open]:[transition:opacity_0.25s,transform_0.5s_cubic-bezier(0.19,1,0.22,1)] lg:pt-(--vp-nav-height) lg:w-(--vp-sidebar-width) lg:max-w-full lg:opacity-100 lg:visible lg:shadow-none lg:translate-x-0 2xl:pl-[max(2rem,calc((100%-(var(--vp-layout-max-width)-4rem))/2))] 2xl:w-[calc((100%-(var(--vp-layout-max-width)-4rem))/2+var(--vp-sidebar-width)-2rem)]\" id=\"VPSidebar\" :class=\"{ open: $store.ui.sidebar }\" x-effect=\"document.body.style.overflow = $store.ui.sidebar ? 'hidden' : ''\"><div class=\"lg:sticky lg:top-[calc(var(--vp-nav-height)*-1)] lg:left-0 lg:z-[1] lg:-mt-(--vp-nav-height) lg:-mr-8 lg:-ml-8 lg:h-(--vp-nav-height) lg:bg-(--vp-sidebar-bg-color)\"></div><nav class=\"outline-0\" id=\"VPSidebarNav\" aria-labelledby=\"sidebar-aria-label\" tabindex=\"-1\"><span class=\"sr-only\" id=\"sidebar-aria-label\">Sidebar Navigation</span>";

pub const ASIDE_CLOSE: &'static str = "</nav></aside>";

/// The divider and width classes of a `.group` wrapper (attribute-escaped).
pub const GROUP_CLASS: &'static str = "[.group+&amp;]:border-t [.group+&amp;]:border-divider [.group+&amp;]:pt-2.5 lg:w-[calc(var(--vp-sidebar-width)-4rem)]";

pub const ITEM_CLASS: &'static str = "group/item item relative flex w-full";

pub const INDICATOR_CLASS: &'static str = "indicator absolute top-[0.375rem] bottom-[0.375rem] left-[calc(-1rem-1px)] w-[2px] rounded-[2px] transition-colors duration-[250ms]";

pub const HEADER_TEXT_CLASS: &'static str = "text grow py-1 leading-[1.7142857] text-[0.875rem] font-bold";

pub const ITEM_TEXT_CLASS: &'static str = "text grow py-1 leading-[1.7142857] text-[0.875rem] transition-colors duration-[250ms] font-medium";

/// The caret that toggles a collapsible group, with its chevron.
pub const CARET_BUTTON: &'static str = "<button type=\"button\" class=\"caret flex justify-center items-center -mr-[0.4375rem] w-8 h-8 shrink-0 text-text-3 cursor-pointer transition-colors duration-[250ms] group-hover/item:text-text-2 hover:text-text-1!\" aria-label=\"toggle section\" @click=\"open = !open\" :aria-expanded=\"open.toString()\"><svg class=\"inline-block size-[1em] text-[1.125rem] rotate-90 transition-transform duration-[250ms] group-[.collapsed]/side:rotate-0\" viewBox=\"0 0 24 24\" fill=\"none\" stroke=\"currentColor\" stroke-linecap=\"round\" stroke-linejoin=\"round\" stroke-width=\"2\" aria-hidden=\"true\"><path d=\"m9 18l6-6l-6-6\"/></svg></button>";

// ── node state ─────────────────────────────────────────────────────────

/// The node links the current page.
pub open spec fn is_active(n: SidebarNode, cur: Seq<char>) -> bool {
    match n.url {
        Some(u) => u@ == cur,
        None => false,
    }
}

/// The node's link is a proper section prefix of the current page.
pub open spec fn has_active(n: SidebarNode, cur: Seq<char>) -> bool {
    match n.url {
        Some(u) => starts_with(cur, u@) && u@ != "/"@,
        None => false,
    }
}

/// Children sit one level deeper.
pub open spec fn next_depth(depth: usize) -> usize {
    if depth < usize::MAX {
        (depth + 1) as usize
    } else {
        depth
    }
}

pub open spec fn text_class(depth: usize) -> Seq<char> {
    if depth == 0 {
        HEADER_TEXT_CLASS@
    } else {
        ITEM_TEXT_CLASS@
    }
}

/// The colour of a link-less heading.
pub open spec fn heading_color(n: SidebarNode, cur: Seq<char>, depth: usize) -> Seq<char> {
    if depth == 0 {
        " text-text-1"@
    } else if is_active(n, cur) {
        Seq::empty()
    } else if has_active(n, cur) {
        " text-text-1"@
    } else {
        " text-text-2"@
    }
}

/// The colour of a linked entry's text.
pub open spec fn link_color(n: SidebarNode, cur: Seq<char>, depth: usize) -> Seq<char> {
    if is_active(n, cur) {
        " text-brand-1"@
    } else if depth == 0 {
        " text-text-1"@
    } else {
        " text-text-2"@
    }
}

pub open spec fn opt_lit(b: bool, s: Seq<char>) -> Seq<char> {
    if b {
        s
    } else {
        Seq::empty()
    }
}

pub open spec fn section_class(n: SidebarNode, cur: Seq<char>, depth: usize) -> Seq<char> {
    "group/side VPSidebarItem level-"@ + dec(depth as nat) + opt_lit(depth == 0, " pb-6 [&.collapsed]:pb-2.5"@)
        + opt_lit(n.collapsed is Some, " collapsible"@) + opt_lit(is_active(n, cur), " is-active"@)
        + opt_lit(has_active(n, cur) && !is_active(n, cur), " has-active"@)
}

/// The opening tag; a collapsible group carries its Alpine state, open
/// unless it starts collapsed.
pub open spec fn section_open(n: SidebarNode, cur: Seq<char>, depth: usize) -> Seq<char> {
    if n.collapsed is Some {
        "<section class=\""@ + section_class(n, cur, depth) + "\" x-data=\"{ &quot;open&quot;: "@ + (if n.collapsed
            == Some(true) {
            "false"@
        } else {
            "true"@
        }) + " }\" :class=\"{ 'collapsed': !open }\">"@
    } else {
        "<section class=\""@ + section_class(n, cur, depth) + "\">"@
    }
}

/// A link to the entry's page, or a heading when it has none.
pub open spec fn node_label(base: Seq<char>, n: SidebarNode, cur: Seq<char>, depth: usize) -> Seq<char> {
    match n.url {
        Some(u) => "<a class=\"link flex items-center grow group/link\" href=\""@ + spec_site_url(base, u@) + "\""@
            + opt_lit(is_active(n, cur), " aria-current=\"page\""@) + "><p class=\""@ + text_class(depth)
            + link_color(n, cur, depth) + "\">"@ + text_escape(n.text@) + "</p></a>"@,
        None => "<h3 class=\""@ + text_class(depth) + heading_color(n, cur, depth) + "\">"@ + text_escape(n.text@)
            + "</h3>"@,
    }
}

/// The entry's row: indicator, label and caret.
pub open spec fn node_row(base: Seq<char>, n: SidebarNode, cur: Seq<char>, depth: usize) -> Seq<char> {
    "<div class=\""@ + ITEM_CLASS@ + opt_lit(n.collapsed is Some, " cursor-pointer"@) + "\"><div class=\""@
        + INDICATOR_CLASS@ + opt_lit(depth >= 2 && is_active(n, cur), " bg-brand-1"@) + "\"></div>"@
        + node_label(base, n, cur, depth) + opt_lit(n.collapsed is Some, CARET_BUTTON@) + "</div>"@
}

/// One sidebar entry at `depth` (0: a top group) and its children.
pub open spec fn spec_sidebar_node(base: Seq<char>, n: SidebarNode, cur: Seq<char>, depth: usize) -> Seq<char>
    decreases n, 2int,
{
    section_open(n, cur, depth) + node_row(base, n, cur, depth) + node_children(base, n, cur, depth) + "</section>"@
}

/// The nested list of an entry's children, one level deeper; nothing
/// for a leaf.
pub open spec fn node_children(base: Seq<char>, n: SidebarNode, cur: Seq<char>, depth: usize) -> Seq<char>
    decreases n, 1int,
{
    if n.children.len() == 0 {
        Seq::empty()
    } else {
        "<ul class=\"items"@ + opt_lit(depth >= 1, " border-l border-divider pl-4"@)
            + " group-[.collapsed]/side:hidden\"><li><div class=\"group "@ + GROUP_CLASS@ + "\">"@
            + spec_sidebar_nodes(base, n.children@, cur, next_depth(depth)) + "</div></li></ul>"@
    }
}

/// Siblings, in order.
pub open spec fn spec_sidebar_nodes(base: Seq<char>, ns: Seq<SidebarNode>, cur: Seq<char>, depth: usize) -> Seq<
    char,
>
    decreases ns, 0int,
{
    if ns.len() == 0 {
        Seq::empty()
    } else {
        spec_sidebar_nodes(base, ns.drop_last(), cur, depth) + spec_sidebar_node(base, ns.last(), cur, depth)
    }
}

pub(crate) fn push_opt(out: &mut Vec<char>, b: bool, s: &str)
    ensures
        final(out)@ == old(out)@ + opt_lit(b, s@),
{
    if b {
        push_str(out, s);
    } else {
        assert(out@ =~= out@ + Seq::<char>::empty());
    }
}

fn text_class_str(depth: usize) -> (r: &'static str)
    ensures
        r@ == text_class(depth),
{
    if depth == 0 {
        HEADER_TEXT_CLASS
    } else {
        ITEM_TEXT_CLASS
    }
}

fn link_color_str(n: &SidebarNode, cur: &Vec<char>, depth: usize, active: bool) -> (r: &'static str)
    requires
        active == is_active(*n, cur@),
    ensures
        r@ == link_color(*n, cur@, depth),
{
    if active {
        " text-brand-1"
    } else if depth == 0 {
        " text-text-1"
    } else {
        " text-text-2"
    }
}

fn heading_color_str(n: &SidebarNode, cur: &Vec<char>, depth: usize, active: bool, has: bool) -> (r: &'static str)
    requires
        active == is_active(*n, cur@),
        has == has_active(*n, cur@),
    ensures
        r@ == heading_color(*n, cur@, depth),
{
    if depth == 0 {
        " text-text-1"
    } else if active {
        proof {
            reveal_strlit("");
        }
        ""
    } else if has {
        " text-text-1"
    } else {
        " text-text-2"
    }
}

fn push_section_class(n: &SidebarNode, cur: &Vec<char>, depth: usize, active: bool, has: bool, out: &mut Vec<char>)
    requires
        active == is_active(*n, cur@),
        has == has_active(*n, cur@),
    ensures
        final(out)@ == old(out)@ + section_class(*n, cur@, depth),
{
    let ghost start = out@;
    push_str(out, "group/side VPSidebarItem level-");
    push_dec(out, depth);
    let ghost s0 = out@;
    push_opt(out, depth == 0, " pb-6 [&.collapsed]:pb-2.5");
    let ghost s1 = out@;
    push_opt(out, n.collapsed.is_some(), " collapsible");
    let ghost s2 = out@;
    push_opt(out, active, " is-active");
    let ghost s3 = out@;
    push_opt(out, has && !active, " has-active");
    assert(out@ =~= start + section_class(*n, cur@, depth));
}

fn push_section_open(n: &SidebarNode, cur: &Vec<char>, depth: usize, active: bool, has: bool, out: &mut Vec<char>)
    requires
        active == is_active(*n, cur@),
        has == has_active(*n, cur@),
    ensures
        final(out)@ == old(out)@ + section_open(*n, cur@, depth),
{
    let ghost start = out@;
    push_str(out, "<section class=\"");
    push_section_class(n, cur, depth, active, has, out);
    let ghost s1 = out@;
    match n.collapsed {
        Some(c) => {
            push_str(out, "\" x-data=\"{ &quot;open&quot;: ");
            push_str(out, if c { "false" } else { "true" });
            push_str(out, " }\" :class=\"{ 'collapsed': !open }\">");
        },
        None => {
            push_str(out, "\">");
        },
    }
    assert(out@ =~= start + section_open(*n, cur@, depth));
}

#[verifier::spinoff_prover]
fn push_label(site: &Site, n: &SidebarNode, cur: &Vec<char>, depth: usize, active: bool, has: bool, out: &mut Vec<char>)
    requires
        active == is_active(*n, cur@),
        has == has_active(*n, cur@),
    ensures
        final(out)@ == old(out)@ + node_label(site.config.base@, *n, cur@, depth),
{
    let ghost start = out@;
    let text = to_chars(n.text.as_str());
    match &n.url {
        Some(u) => {
            push_str(out, "<a class=\"link flex items-center grow group/link\" href=\"");
            let href = site.url(u.as_str());
            push_str(out, href.as_str());
            push_str(out, "\"");
            push_opt(out, active, " aria-current=\"page\"");
            push_str(out, "><p class=\"");
            let ghost s0 = out@;
            push_str(out, text_class_str(depth));
            push_str(out, link_color_str(n, cur, depth, active));
            push_str(out, "\">");
            let ghost s1 = out@;
            push_text_escaped(out, &text);
            push_str(out, "</p></a>");
            assert(out@ =~= start + node_label(site.config.base@, *n, cur@, depth));
        },
        None => {
            push_str(out, "<h3 class=\"");
            push_str(out, text_class_str(depth));
            push_str(out, heading_color_str(n, cur, depth, active, has));
            push_str(out, "\">");
            push_text_escaped(out, &text);
            push_str(out, "</h3>");
            assert(out@ =~= start + node_label(site.config.base@, *n, cur@, depth));
        },
    }
}

#[verifier::spinoff_prover]
fn push_row(site: &Site, n: &SidebarNode, cur: &Vec<char>, depth: usize, active: bool, has: bool, out: &mut Vec<char>)
    requires
        active == is_active(*n, cur@),
        has == has_active(*n, cur@),
    ensures
        final(out)@ == old(out)@ + node_row(site.config.base@, *n, cur@, depth),
{
    let ghost start = out@;
    let collapsible = n.collapsed.is_some();
    push_str(out, "<div class=\"");
    push_str(out, ITEM_CLASS);
    if collapsible {
        push_str(out, " cursor-pointer");
    }
    push_str(out, "\"><div class=\"");
    push_str(out, INDICATOR_CLASS);
    if depth >= 2 && active {
        push_str(out, " bg-brand-1");
    }
    push_str(out, "\"></div>");
    let ghost s0 = out@;
    push_label(site, n, cur, depth, active, has, out);
    let ghost s1 = out@;
    if collapsible {
        push_str(out, CARET_BUTTON);
    }
    push_str(out, "</div>");
    assert(out@ =~= start + node_row(site.config.base@, *n, cur@, depth));
}

fn node_state(n: &SidebarNode, cur: &Vec<char>) -> (r: (bool, bool))
    ensures
        r.0 == is_active(*n, cur@),
        r.1 == has_active(*n, cur@),
{
    match &n.url {
        Some(u) => {
            let uv = to_chars(u.as_str());
            (eq_v(&uv, cur), starts_with_v(cur, &uv) && !eq_str(&uv, "/"))
        },
        None => (false, false),
    }
}

fn push_children(site: &Site, n: &SidebarNode, cur: &Vec<char>, depth: usize, out: &mut Vec<char>)
    ensures
        final(out)@ == old(out)@ + node_children(site.config.base@, *n, cur@, depth),
    decreases n, 1int,
{
    let ghost start = out@;
    if n.children.len() > 0 {
        push_str(out, "<ul class=\"items");
        push_opt(out, depth >= 1, " border-l border-divider pl-4");
        push_str(out, " group-[.collapsed]/side:hidden\"><li><div class=\"group ");
        push_str(out, GROUP_CLASS);
        push_str(out, "\">");
        let next = if depth < usize::MAX {
            depth + 1
        } else {
            depth
        };
        proof {
            assert(decreases_to!(n => n.children));
        }
        let ghost s2 = out@;
        push_nodes(site, &n.children, cur, next, out);
        push_str(out, "</div></li></ul>");
        assert(out@ =~= start + node_children(site.config.base@, *n, cur@, depth));
    } else {
        assert(out@ =~= start + node_children(site.config.base@, *n, cur@, depth));
    }
}

#[verifier::spinoff_prover]
fn push_node(site: &Site, n: &SidebarNode, cur: &Vec<char>, depth: usize, out: &mut Vec<char>)
    ensures
        final(out)@ == old(out)@ + spec_sidebar_node(site.config.base@, *n, cur@, depth),
    decreases n, 2int,
{
    let ghost start = out@;
    let (active, has) = node_state(n, cur);
    push_section_open(n, cur, depth, active, has, out);
    let ghost s0 = out@;
    push_row(site, n, cur, depth, active, has, out);
    let ghost s1 = out@;
    push_children(site, n, cur, depth, out);
    let ghost s2 = out@;
    push_str(out, "</section>");
    assert(out@ =~= start + spec_sidebar_node(site.config.base@, *n, cur@, depth));
}

fn push_nodes(site: &Site, ns: &Vec<SidebarNode>, cur: &Vec<char>, depth: usize, out: &mut Vec<char>)
    ensures
        final(out)@ == old(out)@ + spec_sidebar_nodes(site.config.base@, ns@, cur@, depth),
    decreases ns, 0int,
{
    let ghost start = out@;
    let mut i: usize = 0;
    assert(ns@.take(0) =~= Seq::<SidebarNode>::empty());
    while i < ns.len()
        invariant
            i <= ns.len(),
            out@ == start + spec_sidebar_nodes(site.config.base@, ns@.take(i as int), cur@, depth),
        decreases ns.len() - i,
    {
        proof {
            assert(decreases_to!(ns => ns@[i as int]));
            assert(ns@.take(i as int + 1).drop_last() =~= ns@.take(i as int));
        }
        push_node(site, &ns[i], cur, depth, out);
        proof {
            assert(ns@.take(i as int + 1).last() == ns@[i as int]);
        }
        i += 1;
    }
    assert(ns@.take(i as int) =~= ns@);
}

/// One sidebar entry rendered at `depth` (0: a top group), with its
/// descendants one level deeper each.
pub fn sidebar_node_html(site: &Site, n: &SidebarNode, current_url: &str, depth: usize) -> (r: String)
    ensures
        r@ == spec_sidebar_node(site.config.base@, *n, current_url@, depth),
{
    let cur = to_chars(current_url);
    let mut out: Vec<char> = Vec::new();
    push_node(site, n, &cur, depth, &mut out);
    assert(out@ =~= spec_sidebar_node(site.config.base@, *n, current_url@, depth));
    from_chars(&out)
}

// ── the aside ──────────────────────────────────────────────────────────

/// A root entry in its own `.group` wrapper (so adjacent groups get the
/// divider); a bare root link renders one level deep under a headless item.
pub open spec fn sidebar_root(base: Seq<char>, item: SidebarNode, cur: Seq<char>) -> Seq<char> {
    "<div class=\"group lg:pt-2.5 "@ + GROUP_CLASS@ + "\">"@ + (if item.children.len() == 0 && item.url is Some {
        "<div class=\"VPSidebarItem level-0\"><div class=\""@ + ITEM_CLASS@ + "\"><div class=\""@ + INDICATOR_CLASS@
            + "\"></div></div><ul class=\"items\"><li>"@ + spec_sidebar_node(base, item, cur, 1) + "</li></ul></div>"@
    } else {
        spec_sidebar_node(base, item, cur, 0)
    }) + "</div>"@
}

pub open spec fn sidebar_roots(base: Seq<char>, items: Seq<SidebarNode>, cur: Seq<char>) -> Seq<char>
    decreases items.len(),
{
    if items.len() == 0 {
        Seq::empty()
    } else {
        sidebar_roots(base, items.drop_last(), cur) + sidebar_root(base, items.last(), cur)
    }
}

/// The whole sidebar for a tree's items.
pub open spec fn spec_sidebar_aside(base: Seq<char>, items: Seq<SidebarNode>, cur: Seq<char>) -> Seq<char> {
    ASIDE_OPEN@ + sidebar_roots(base, items, cur) + ASIDE_CLOSE@
}

#[verifier::spinoff_prover]
fn push_root(site: &Site, item: &SidebarNode, cur: &Vec<char>, out: &mut Vec<char>)
    ensures
        final(out)@ == old(out)@ + sidebar_root(site.config.base@, *item, cur@),
{
    let ghost start = out@;
    push_str(out, "<div class=\"group lg:pt-2.5 ");
    push_str(out, GROUP_CLASS);
    push_str(out, "\">");
    let ghost s0 = out@;
    if item.children.len() == 0 && item.url.is_some() {
        push_str(out, "<div class=\"VPSidebarItem level-0\"><div class=\"");
        push_str(out, ITEM_CLASS);
        push_str(out, "\"><div class=\"");
        push_str(out, INDICATOR_CLASS);
        push_str(out, "\"></div></div><ul class=\"items\"><li>");
        let ghost s1 = out@;
        push_node(site, item, cur, 1, out);
        push_str(out, "</li></ul></div>");
    } else {
        push_node(site, item, cur, 0, out);
    }
    push_str(out, "</div>");
    assert(out@ =~= start + sidebar_root(site.config.base@, *item, cur@));
}

/// The sidebar of the tree that owns `cur`; nothing where none does.
pub open spec fn spec_sidebar_for(base: Seq<char>, trees: Seq<SidebarTree>, cur: Seq<char>) -> Seq<char> {
    if exists|k: int| is_best(trees, cur, k) {
        spec_sidebar_aside(base, trees[choose|k: int| is_best(trees, cur, k)].items@, cur)
    } else {
        Seq::empty()
    }
}

/// The sidebar of the tree that owns `current_url`; empty where none does.
#[verifier::spinoff_prover]
pub fn sidebar_html(site: &Site, current_url: &str) -> (r: String)
    ensures
        r@ == spec_sidebar_for(site.config.base@, site.sidebars.trees@, current_url@),
        none_covers(site.sidebars.trees@, current_url@) ==> r@ == Seq::<char>::empty(),
        forall|k: int|
            is_best(site.sidebars.trees@, current_url@, k) ==> r@ == spec_sidebar_aside(
                site.config.base@,
                #[trigger] site.sidebars.trees@[k].items@,
                current_url@,
            ),
{
    let t = match site.sidebars.for_url(current_url) {
        Some(t) => t,
        None => {
            proof {
                let trees = site.sidebars.trees@;
                assert forall|k: int| !is_best(trees, current_url@, k) by {
                    if 0 <= k < trees.len() {
                        assert(!covers(trees[k].prefix@, current_url@));
                    }
                }
            }
            return String::new();
        },
    };
    let ghost trees = site.sidebars.trees@;
    proof {
        let k0 = choose|k: int| is_best(trees, current_url@, k) && *t == trees[k];
        assert forall|j: int| is_best(trees, current_url@, j) implies trees[j] == *t by {
            if j < k0 {
                assert(byte_len(trees[k0].prefix@) < byte_len(trees[j].prefix@));
            } else if j > k0 {
                assert(byte_len(trees[j].prefix@) < byte_len(trees[k0].prefix@));
            }
        }
        let k1 = choose|k: int| is_best(trees, current_url@, k);
        assert(is_best(trees, current_url@, k1));
    }
    let cur = to_chars(current_url);
    let mut out = to_chars(ASIDE_OPEN);
    let mut i: usize = 0;
    assert(t.items@.take(0) =~= Seq::<SidebarNode>::empty());
    while i < t.items.len()
        invariant
            i <= t.items.len(),
            cur@ == current_url@,
            out@ == ASIDE_OPEN@ + sidebar_roots(site.config.base@, t.items@.take(i as int), cur@),
        decreases t.items.len() - i,
    {
        proof {
            assert(t.items@.take(i as int + 1).drop_last() =~= t.items@.take(i as int));
        }
        push_root(site, &t.items[i], &cur, &mut out);
        i += 1;
    }
    assert(t.items@.take(i as int) =~= t.items@);
    push_str(&mut out, ASIDE_CLOSE);
    from_chars(&out)
}

} // verus!
