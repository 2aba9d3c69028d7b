//! Landmark extraction: a built page's HTML parsed by scraper into its
//! elements (in document order, with their attributes, classes, depth
//! and text), CSS selectors matched by scraper, and the page's
//! fingerprint read off them.

use std::collections::HashMap;

use scraper::{ElementRef, Html, Selector};
use vstd::prelude::*;

use crate::parity::{
    norm_href, norm_text, resolve_href, spec_norm_href, spec_norm_text, spec_resolve_href, Feature, Hero, Link,
    NavItem, NavTitle, PageFingerprint, PagerItem, SidebarEntry, H1,
};
use crate::text::{eq_str, eq_v, from_chars_range, starts_with, starts_with_str, to_chars};

verus! {

broadcast use vstd::string::group_string_axioms;

/// One element of a parsed page.
pub struct DomNode {
    pub name: String,
    /// The attributes, as name and value.
    pub attrs: Vec<(String, String)>,
    pub classes: Vec<String>,
    /// The number of the element's ancestors (the document counts).
    pub depth: usize,
    /// The element's text: its descendant text nodes joined.
    pub text: String,
}

/// A page's elements in document order.
pub struct PageDom {
    pub nodes: Vec<DomNode>,
}

pub struct NodeV {
    pub name: Seq<char>,
    pub attrs: Seq<(Seq<char>, Seq<char>)>,
    pub classes: Seq<Seq<char>>,
    pub depth: usize,
    pub parent: Option<usize>,
    pub text: Seq<char>,
}

pub open spec fn opt_v(o: Option<String>) -> Option<Seq<char>> {
    match o {
        Some(s) => Some(s@),
        None => None,
    }
}

pub open spec fn node_v(n: DomNode) -> NodeV {
    NodeV {
        name: n.name@,
        attrs: n.attrs@.map_values(|p: (String, String)| (p.0@, p.1@)),
        classes: n.classes.deep_view(),
        depth: n.depth,
        parent: None,
        text: n.text@,
    }
}

/// The nearest element at or before `k` one level above element `j`:
/// in document order, `j`'s parent.
pub open spec fn parent_from(ns: Seq<DomNode>, j: int, k: int) -> Option<usize>
    decreases k + 1,
{
    if k < 0 {
        None
    } else if ns[k].depth + 1 == ns[j].depth {
        Some(k as usize)
    } else {
        parent_from(ns, j, k - 1)
    }
}

/// The elements, each with its parent's position.
pub open spec fn dom_v(d: PageDom) -> Seq<NodeV> {
    Seq::new(
        d.nodes@.len(),
        |j: int|
            NodeV {
                name: node_v(d.nodes@[j]).name,
                attrs: node_v(d.nodes@[j]).attrs,
                classes: node_v(d.nodes@[j]).classes,
                depth: node_v(d.nodes@[j]).depth,
                parent: parent_from(d.nodes@, j, j - 1),
                text: node_v(d.nodes@[j]).text,
            },
    )
}

/// The parent of element `j`.
fn parent_v(dom: &PageDom, j: usize) -> (r: Option<usize>)
    requires
        j < dom.nodes.len(),
    ensures
        r == dom_v(*dom)[j as int].parent,
        match r {
            Some(p) => p < j,
            None => true,
        },
{
    let ghost ns = dom.nodes@;
    let dj = dom.nodes[j].depth;
    let mut k: usize = j;
    while k > 0
        invariant
            ns == dom.nodes@,
            k <= j < ns.len(),
            dj == ns[j as int].depth,
            parent_from(ns, j as int, j - 1) == parent_from(ns, j as int, k - 1),
        decreases k,
    {
        k -= 1;
        let dk = dom.nodes[k].depth;
        if dk < dj && dk + 1 == dj {
            return Some(k);
        }
    }
    None
}

/// The value of the first attribute named `k`.
pub open spec fn attr_in(attrs: Seq<(Seq<char>, Seq<char>)>, k: Seq<char>) -> Option<Seq<char>>
    decreases attrs.len(),
{
    if attrs.len() == 0 {
        None
    } else if attrs[0].0 == k {
        Some(attrs[0].1)
    } else {
        attr_in(attrs.skip(1), k)
    }
}

pub open spec fn attr_of(n: NodeV, k: Seq<char>) -> Option<Seq<char>> {
    attr_in(n.attrs, k)
}

fn attr_v(n: &DomNode, k: &str) -> (r: Option<String>)
    ensures
        opt_v(r) == attr_of(node_v(*n), k@),
{
    let ghost a = node_v(*n).attrs;
    let kv = to_chars(k);
    let mut i: usize = 0;
    assert(a.skip(0) =~= a);
    while i < n.attrs.len()
        invariant
            a == node_v(*n).attrs,
            a.len() == n.attrs.len(),
            kv@ == k@,
            i <= n.attrs.len(),
            attr_in(a, k@) == attr_in(a.skip(i as int), k@),
        decreases n.attrs.len() - i,
    {
        assert(a.skip(i as int)[0] == (n.attrs@[i as int].0@, n.attrs@[i as int].1@));
        assert(a.skip(i as int).skip(1) =~= a.skip(i as int + 1));
        if eq_str(&kv, n.attrs[i].0.as_str()) {
            return Some(str_clone(&n.attrs[i].1));
        }
        i += 1;
    }
    None
}

/// The elements scraper parses a page into, in document order.
pub uninterp spec fn spec_parse_dom(html: Seq<char>) -> Seq<NodeV>;

/// The positions (in `spec_parse_dom`'s order) of the elements scraper
/// matches a CSS selector against, in the order it yields them.
pub uninterp spec fn spec_select(html: Seq<char>, selector: Seq<char>) -> Seq<usize>;

/// `scraper::Html::parse_document`, its elements taken in document
/// order (a pre-order walk of the tree), each as its name, its
/// attributes (`Element::attrs`), its classes (`Element::classes`), the
/// number of its ancestors (`ancestors`) and its text (`ElementRef::text`,
/// joined); the result, each element with its parent's position, is
/// named by `spec_parse_dom`.
#[verifier::external_body]
fn parse_dom(html: &str) -> (d: PageDom)
    ensures
        dom_v(d) == spec_parse_dom(html@),
{
    let doc = Html::parse_document(html);
    let els = doc.tree.root().descendants().filter_map(ElementRef::wrap);
    let nodes = els.map(|e| DomNode {
        name: e.value().name().into(),
        attrs: e.value().attrs().map(|(k, v)| (k.into(), v.into())).collect(),
        classes: e.value().classes().map(String::from).collect(),
        depth: e.ancestors().count(),
        text: e.text().collect(),
    });
    PageDom { nodes: nodes.collect() }
}

/// `scraper::Html::select` with a selector (`Selector::parse`; nothing
/// for one that does not parse), each matched element given by its
/// position in the pre-order walk `parse_dom` numbers; the result is
/// named by `spec_select`. Every element matched is one of the page's.
#[verifier::external_body]
fn select_nodes(html: &str, selector: &str) -> (r: Vec<usize>)
    ensures
        r@ == spec_select(html@, selector@),
        forall|k: int| 0 <= k < r.len() ==> #[trigger] r@[k] < spec_parse_dom(html@).len(),
{
    let doc = Html::parse_document(html);
    let Ok(sel) = Selector::parse(selector) else {
        return Vec::new();
    };
    let els = doc.tree.root().descendants().filter_map(ElementRef::wrap);
    let at: HashMap<_, usize> = els.enumerate().map(|(i, e)| (e.id(), i)).collect();
    doc.select(&sel).filter_map(|e| at.get(&e.id()).copied()).collect()
}

// ── reading elements ───────────────────────────────────────────────────

/// The element's text, normalized.
pub open spec fn el_text(n: NodeV) -> Seq<char> {
    spec_norm_text(n.text)
}

/// The element's `href`, normalized.
pub open spec fn el_href(n: NodeV) -> Option<Seq<char>> {
    match attr_of(n, "href"@) {
        Some(h) => Some(spec_norm_href(h)),
        None => None,
    }
}

pub open spec fn has_class(n: NodeV, c: Seq<char>) -> bool {
    n.classes.contains(c)
}

/// The first position from `j` on holding an element no deeper than
/// `e` (the end when there is none).
pub open spec fn span_end(d: Seq<NodeV>, e: int, j: int) -> int
    decreases d.len() - j,
{
    if j < 0 || j >= d.len() || d[j].depth <= d[e].depth {
        j
    } else {
        span_end(d, e, j + 1)
    }
}

/// The elements `e` encloses, in document order: those that follow it
/// up to the first one no deeper than it.
pub open spec fn desc(d: Seq<NodeV>, e: usize) -> Seq<usize> {
    if e as int >= d.len() {
        Seq::empty()
    } else {
        Seq::new((span_end(d, e as int, e + 1) - e - 1) as nat, |i: int| (e + 1 + i) as usize)
    }
}

/// The elements of `ids` named `t`.
pub open spec fn named(d: Seq<NodeV>, ids: Seq<usize>, t: Seq<char>) -> Seq<usize>
    decreases ids.len(),
{
    if ids.len() == 0 {
        Seq::empty()
    } else {
        named(d, ids.drop_last(), t) + if d[ids.last() as int].name == t {
            seq![ids.last()]
        } else {
            Seq::empty()
        }
    }
}


/// The non-empty texts of the elements of `ids`.
pub open spec fn texts(d: Seq<NodeV>, ids: Seq<usize>) -> Seq<Seq<char>>
    decreases ids.len(),
{
    if ids.len() == 0 {
        Seq::empty()
    } else {
        texts(d, ids.drop_last()) + if el_text(d[ids.last() as int]).len() > 0 {
            seq![el_text(d[ids.last() as int])]
        } else {
            Seq::empty()
        }
    }
}

pub open spec fn first(ids: Seq<usize>) -> Option<usize> {
    if ids.len() > 0 {
        Some(ids[0])
    } else {
        None
    }
}

/// The number of `ul` elements enclosing `j`.
pub open spec fn ul_depth(d: Seq<NodeV>, j: int) -> nat
    decreases j,
{
    if 0 <= j < d.len() {
        match d[j].parent {
            Some(p) => if (p as int) < j {
                (if d[p as int].name == "ul"@ {
                    1nat
                } else {
                    0nat
                }) + ul_depth(d, p as int)
            } else {
                0
            },
            None => 0,
        }
    } else {
        0
    }
}

/// Some element enclosing `j` is named `t`.
pub open spec fn anc_named(d: Seq<NodeV>, j: int, t: Seq<char>) -> bool
    decreases j,
{
    if 0 <= j < d.len() {
        match d[j].parent {
            Some(p) => if (p as int) < j {
                d[p as int].name == t || anc_named(d, p as int, t)
            } else {
                false
            },
            None => false,
        }
    } else {
        false
    }
}

pub open spec fn valid_ids(d: Seq<NodeV>, ids: Seq<usize>) -> bool {
    forall|k: int| 0 <= k < ids.len() ==> #[trigger] ids[k] < d.len()
}

/// The elements `e` encloses, in document order.
fn desc_v(dom: &PageDom, e: usize) -> (r: Vec<usize>)
    ensures
        r@ == desc(dom_v(*dom), e),
        valid_ids(dom_v(*dom), r@),
{
    let ghost d = dom_v(*dom);
    let mut out: Vec<usize> = Vec::new();
    if e >= dom.nodes.len() {
        assert(out@ =~= desc(d, e));
        return out;
    }
    let de = dom.nodes[e].depth;
    let mut j: usize = e + 1;
    assert(out@ =~= Seq::new((j - e - 1) as nat, |i: int| (e + 1 + i) as usize));
    while j < dom.nodes.len() && dom.nodes[j].depth > de
        invariant
            d == dom_v(*dom),
            e < j <= dom.nodes.len(),
            de == d[e as int].depth,
            span_end(d, e as int, e + 1) == span_end(d, e as int, j as int),
            out@ =~= Seq::new((j - e - 1) as nat, |i: int| (e + 1 + i) as usize),
        decreases dom.nodes.len() - j,
    {
        assert(d[j as int].depth == dom.nodes@[j as int].depth);
        out.push(j);
        j += 1;
    }
    proof {
        if j < dom.nodes.len() {
            assert(d[j as int].depth == dom.nodes@[j as int].depth);
        }
    }
    assert(span_end(d, e as int, j as int) == j);
    out
}

fn name_is(n: &DomNode, t: &str) -> (r: bool)
    ensures
        r == (n.name@ == t@),
{
    eq_str(&to_chars(n.name.as_str()), t)
}

fn has_class_v(n: &DomNode, c: &str) -> (r: bool)
    ensures
        r == has_class(node_v(*n), c@),
{
    let cv = to_chars(c);
    let mut i: usize = 0;
    while i < n.classes.len()
        invariant
            i <= n.classes.len(),
            cv@ == c@,
            forall|k: int| 0 <= k < i ==> n.classes.deep_view()[k] != c@,
        decreases n.classes.len() - i,
    {
        assert(n.classes.deep_view()[i as int] == n.classes@[i as int]@);
        if eq_str(&cv, n.classes[i].as_str()) {
            assert(n.classes.deep_view()[i as int] == c@);
            return true;
        }
        i += 1;
    }
    false
}

fn named_v(dom: &PageDom, ids: &Vec<usize>, t: &str) -> (r: Vec<usize>)
    requires
        valid_ids(dom_v(*dom), ids@),
    ensures
        r@ == named(dom_v(*dom), ids@, t@),
        valid_ids(dom_v(*dom), r@),
{
    let ghost d = dom_v(*dom);
    let mut out: Vec<usize> = Vec::new();
    let mut i: usize = 0;
    assert(ids@.take(0) =~= Seq::<usize>::empty());
    while i < ids.len()
        invariant
            d == dom_v(*dom),
            valid_ids(d, ids@),
            i <= ids.len(),
            out@ == named(d, ids@.take(i as int), t@),
            valid_ids(d, out@),
        decreases ids.len() - i,
    {
        assert(ids@.take(i as int + 1).drop_last() =~= ids@.take(i as int));
        let k = ids[i];
        assert(k < d.len());
        if name_is(&dom.nodes[k], t) {
            out.push(k);
        }
        i += 1;
    }
    assert(ids@.take(i as int) =~= ids@);
    out
}


fn el_text_v(n: &DomNode) -> (r: String)
    ensures
        r@ == el_text(node_v(*n)),
{
    norm_text(n.text.as_str())
}

fn el_href_v(n: &DomNode) -> (r: Option<String>)
    ensures
        opt_v(r) == el_href(node_v(*n)),
{
    match attr_v(n, "href") {
        Some(h) => Some(norm_href(h.as_str())),
        None => None,
    }
}

fn texts_v(dom: &PageDom, ids: &Vec<usize>) -> (r: Vec<String>)
    requires
        valid_ids(dom_v(*dom), ids@),
    ensures
        r.deep_view() == texts(dom_v(*dom), ids@),
{
    let ghost d = dom_v(*dom);
    let mut out: Vec<String> = Vec::new();
    let mut i: usize = 0;
    assert(ids@.take(0) =~= Seq::<usize>::empty());
    while i < ids.len()
        invariant
            d == dom_v(*dom),
            valid_ids(d, ids@),
            i <= ids.len(),
            out.deep_view() == texts(d, ids@.take(i as int)),
        decreases ids.len() - i,
    {
        assert(ids@.take(i as int + 1).drop_last() =~= ids@.take(i as int));
        let k = ids[i];
        assert(k < d.len());
        let t = el_text_v(&dom.nodes[k]);
        let ghost before = out.deep_view();
        if t.unicode_len() > 0 {
            out.push(t);
            assert(out.deep_view() =~= before.push(t@));
        }
        i += 1;
    }
    assert(ids@.take(i as int) =~= ids@);
    out
}

fn ul_depth_v(dom: &PageDom, j: usize) -> (r: usize)
    requires
        j < dom.nodes.len(),
    ensures
        r == ul_depth(dom_v(*dom), j as int),
{
    let ghost d = dom_v(*dom);
    let mut cur: usize = j;
    let mut n: usize = 0;
    loop
        invariant
            d == dom_v(*dom),
            cur < dom.nodes.len(),
            n + cur <= j,
            ul_depth(d, j as int) == n + ul_depth(d, cur as int),
        decreases cur,
    {
        match parent_v(dom, cur) {
            Some(p) => {
                if p < cur {
                    assert(d[p as int].name == dom.nodes@[p as int].name@);
                    if name_is(&dom.nodes[p], "ul") {
                        n += 1;
                    }
                    cur = p;
                } else {
                    return n;
                }
            },
            None => {
                return n;
            },
        }
    }
}

fn anc_named_v(dom: &PageDom, j: usize, t: &str) -> (r: bool)
    requires
        j < dom.nodes.len(),
    ensures
        r == anc_named(dom_v(*dom), j as int, t@),
{
    let ghost d = dom_v(*dom);
    let mut cur: usize = j;
    loop
        invariant
            d == dom_v(*dom),
            cur < dom.nodes.len(),
            anc_named(d, j as int, t@) == anc_named(d, cur as int, t@),
        decreases cur,
    {
        match parent_v(dom, cur) {
            Some(p) => {
                if p < cur {
                    assert(d[p as int].name == dom.nodes@[p as int].name@);
                    if name_is(&dom.nodes[p], t) {
                        return true;
                    }
                    cur = p;
                } else {
                    return false;
                }
            },
            None => {
                return false;
            },
        }
    }
}


/// The elements of `ids` that are also in `pool`.
pub open spec fn within(ids: Seq<usize>, pool: Seq<usize>) -> Seq<usize>
    decreases ids.len(),
{
    if ids.len() == 0 {
        Seq::empty()
    } else {
        within(ids.drop_last(), pool) + if pool.contains(ids.last()) {
            seq![ids.last()]
        } else {
            Seq::empty()
        }
    }
}

/// The elements of `ids` whose parent is `e`.
pub open spec fn kids(d: Seq<NodeV>, ids: Seq<usize>, e: usize) -> Seq<usize>
    decreases ids.len(),
{
    if ids.len() == 0 {
        Seq::empty()
    } else {
        kids(d, ids.drop_last(), e) + if d[ids.last() as int].parent == Some(e) {
            seq![ids.last()]
        } else {
            Seq::empty()
        }
    }
}

fn first_v(ids: &Vec<usize>) -> (r: Option<usize>)
    ensures
        r == first(ids@),
{
    if ids.len() > 0 {
        Some(ids[0])
    } else {
        None
    }
}

fn last_v(ids: &Vec<usize>) -> (r: Option<usize>)
    ensures
        r == (if ids@.len() > 0 {
            Some(ids@.last())
        } else {
            None::<usize>
        }),
{
    if ids.len() > 0 {
        Some(ids[ids.len() - 1])
    } else {
        None
    }
}

fn contains_v(pool: &Vec<usize>, x: usize) -> (r: bool)
    ensures
        r == pool@.contains(x),
{
    let mut i: usize = 0;
    while i < pool.len()
        invariant
            i <= pool.len(),
            forall|k: int| 0 <= k < i ==> pool@[k] != x,
        decreases pool.len() - i,
    {
        if pool[i] == x {
            return true;
        }
        i += 1;
    }
    false
}

fn within_v(ids: &Vec<usize>, pool: &Vec<usize>) -> (r: Vec<usize>)
    ensures
        r@ == within(ids@, pool@),
        forall|k: int| 0 <= k < r.len() ==> #[trigger] ids@.contains(r@[k]),
{
    let mut out: Vec<usize> = Vec::new();
    let mut i: usize = 0;
    assert(ids@.take(0) =~= Seq::<usize>::empty());
    while i < ids.len()
        invariant
            i <= ids.len(),
            out@ == within(ids@.take(i as int), pool@),
            forall|k: int| 0 <= k < out.len() ==> #[trigger] ids@.contains(out@[k]),
        decreases ids.len() - i,
    {
        assert(ids@.take(i as int + 1).drop_last() =~= ids@.take(i as int));
        if contains_v(pool, ids[i]) {
            out.push(ids[i]);
            assert(ids@.contains(ids@[i as int]));
        }
        i += 1;
    }
    assert(ids@.take(i as int) =~= ids@);
    out
}

fn kids_v(dom: &PageDom, ids: &Vec<usize>, e: usize) -> (r: Vec<usize>)
    requires
        valid_ids(dom_v(*dom), ids@),
    ensures
        r@ == kids(dom_v(*dom), ids@, e),
        valid_ids(dom_v(*dom), r@),
{
    let ghost d = dom_v(*dom);
    let mut out: Vec<usize> = Vec::new();
    let mut i: usize = 0;
    assert(ids@.take(0) =~= Seq::<usize>::empty());
    while i < ids.len()
        invariant
            d == dom_v(*dom),
            valid_ids(d, ids@),
            i <= ids.len(),
            out@ == kids(d, ids@.take(i as int), e),
            valid_ids(d, out@),
        decreases ids.len() - i,
    {
        assert(ids@.take(i as int + 1).drop_last() =~= ids@.take(i as int));
        let k = ids[i];
        assert(k < d.len());
        if parent_v(dom, k) == Some(e) {
            out.push(k);
        }
        i += 1;
    }
    assert(ids@.take(i as int) =~= ids@);
    out
}

fn within_valid(d: Ghost<Seq<NodeV>>, ids: &Vec<usize>, pool: &Vec<usize>) -> (r: Vec<usize>)
    requires
        valid_ids(d@, ids@),
    ensures
        r@ == within(ids@, pool@),
        valid_ids(d@, r@),
{
    let r = within_v(ids, pool);
    assert forall|k: int| 0 <= k < r.len() implies #[trigger] r@[k] < d@.len() by {
        assert(ids@.contains(r@[k]));
    }
    r
}

// ── the fingerprint ────────────────────────────────────────────────────

pub type LinkV = (Seq<char>, Seq<char>);

pub enum NavItemV {
    Link(Seq<char>, Seq<char>),
    Group(Seq<char>, Seq<LinkV>),
}

/// Kind, text, href and depth.
pub type EntryV = (Seq<char>, Seq<char>, Option<Seq<char>>, Option<usize>);

pub struct FpV {
    pub title: Option<Seq<char>>,
    pub h1: Option<(Seq<char>, Option<Seq<char>>)>,
    pub nav_title: Option<(Seq<char>, Seq<char>, Option<Seq<char>>)>,
    pub nav_items: Seq<NavItemV>,
    pub sidebar: Seq<EntryV>,
    pub outline_title: Option<Seq<char>>,
    pub outline_items: Option<Seq<LinkV>>,
    pub pager: Seq<(Seq<char>, Seq<char>, Seq<char>)>,
    pub edit_link: Option<Seq<char>>,
    pub last_updated: Option<Seq<char>>,
    pub site_footer: Option<Seq<Seq<char>>>,
    pub hero: Option<(Seq<Seq<char>>, Option<Seq<char>>, Seq<LinkV>)>,
    pub features: Option<Seq<LinkV>>,
    pub has_search: bool,
    pub has_main: bool,
    pub block_counts: Option<Seq<(Seq<char>, usize)>>,
}

pub open spec fn link_v(l: Link) -> LinkV {
    (l.text@, l.href@)
}

pub open spec fn links_v(s: Seq<Link>) -> Seq<LinkV> {
    s.map_values(|l: Link| link_v(l))
}

pub open spec fn nav_item_v(n: NavItem) -> NavItemV {
    match n {
        NavItem::Link { text, href } => NavItemV::Link(text@, href@),
        NavItem::Group { text, items } => NavItemV::Group(text@, links_v(items@)),
    }
}

pub open spec fn entry_v(e: SidebarEntry) -> EntryV {
    (e.kind@, e.text@, opt_v(e.href), e.depth)
}

/// The text of the element at `o`, if any.
pub open spec fn text_at(d: Seq<NodeV>, o: Option<usize>) -> Option<Seq<char>> {
    match o {
        Some(i) => Some(el_text(d[i as int])),
        None => None,
    }
}

pub open spec fn non_empty(o: Option<Seq<char>>) -> Option<Seq<char>> {
    match o {
        Some(t) => if t.len() > 0 {
            Some(t)
        } else {
            None
        },
        None => None,
    }
}

pub open spec fn fp_title(h: Seq<char>) -> Option<Seq<char>> {
    text_at(spec_parse_dom(h), first(spec_select(h, "title"@)))
}

pub open spec fn fp_h1(h: Seq<char>) -> Option<(Seq<char>, Option<Seq<char>>)> {
    let d = spec_parse_dom(h);
    match first(spec_select(h, "main h1, .vp-doc h1, h1.heading"@)) {
        Some(i) => Some((el_text(d[i as int]), attr_of(d[i as int], "id"@))),
        None => None,
    }
}

pub open spec fn fp_nav_title(h: Seq<char>) -> Option<(Seq<char>, Seq<char>, Option<Seq<char>>)> {
    let d = spec_parse_dom(h);
    match first(spec_select(h, "header .title a"@)) {
        Some(i) => Some(
            (
                el_text(d[i as int]),
                match el_href(d[i as int]) {
                    Some(r) => r,
                    None => Seq::empty(),
                },
                match first(named(d, desc(d, i), "img"@)) {
                    Some(j) => attr_of(d[j as int], "src"@),
                    None => None,
                },
            ),
        ),
        None => None,
    }
}

pub open spec fn fp_edit_link(h: Seq<char>) -> Option<Seq<char>> {
    let d = spec_parse_dom(h);
    match first(spec_select(h, "div.edit-link a"@)) {
        Some(i) => el_href(d[i as int]),
        None => None,
    }
}

/// The first ten characters of a date, or all of a shorter one.
pub open spec fn date_prefix(t: Seq<char>) -> Seq<char> {
    if t.len() <= 10 {
        t
    } else {
        t.take(10)
    }
}

pub open spec fn fp_last_updated(h: Seq<char>) -> Option<Seq<char>> {
    let d = spec_parse_dom(h);
    match first(spec_select(h, "p[class*=LastUpdated] time"@)) {
        Some(i) => match attr_of(d[i as int], "datetime"@) {
            Some(t) => Some(date_prefix(t)),
            None => None,
        },
        None => None,
    }
}

/// The non-empty paragraph texts of the last `footer`, when there are any.
pub open spec fn fp_site_footer(h: Seq<char>) -> Option<Seq<Seq<char>>> {
    let d = spec_parse_dom(h);
    let fs = spec_select(h, "footer"@);
    if fs.len() == 0 {
        None
    } else {
        let ts = texts(d, named(d, desc(d, fs.last()), "p"@));
        if ts.len() == 0 {
            None
        } else {
            Some(ts)
        }
    }
}

/// The block tags counted inside `main`, in sorted order.
pub open spec fn block_tags() -> Seq<Seq<char>> {
    seq!["blockquote"@, "h2"@, "h3"@, "h4"@, "h5"@, "h6"@, "ol"@, "pre"@, "table"@, "ul"@]
}

pub open spec fn fp_block_counts(h: Seq<char>) -> Option<Seq<(Seq<char>, usize)>> {
    let d = spec_parse_dom(h);
    match first(spec_select(h, "main"@)) {
        Some(m) => Some(
            block_tags().map_values(|t: Seq<char>| (t, named(d, desc(d, m), t).len() as usize)),
        ),
        None => None,
    }
}


fn sel_v(dom: &PageDom, html: &str, selector: &str) -> (r: Vec<usize>)
    requires
        dom_v(*dom) == spec_parse_dom(html@),
    ensures
        r@ == spec_select(html@, selector@),
        valid_ids(dom_v(*dom), r@),
{
    select_nodes(html, selector)
}

fn str_clone(s: &String) -> (r: String)
    ensures
        r@ == s@,
{
    s.clone()
}


fn title_v(dom: &PageDom, html: &str) -> (r: Option<String>)
    requires
        dom_v(*dom) == spec_parse_dom(html@),
    ensures
        opt_v(r) == fp_title(html@),
{
    let ids = sel_v(dom, html, "title");
    match first_v(&ids) {
        Some(i) => Some(el_text_v(&dom.nodes[i])),
        None => None,
    }
}

pub open spec fn h1_v(o: Option<H1>) -> Option<(Seq<char>, Option<Seq<char>>)> {
    match o {
        Some(h) => Some((h.text@, opt_v(h.id))),
        None => None,
    }
}

fn h1_of(dom: &PageDom, html: &str) -> (r: Option<H1>)
    requires
        dom_v(*dom) == spec_parse_dom(html@),
    ensures
        h1_v(r) == fp_h1(html@),
{
    let ids = sel_v(dom, html, "main h1, .vp-doc h1, h1.heading");
    match first_v(&ids) {
        Some(i) => Some(H1 { text: el_text_v(&dom.nodes[i]), id: attr_v(&dom.nodes[i], "id") }),
        None => None,
    }
}

pub open spec fn nav_title_v(o: Option<NavTitle>) -> Option<(Seq<char>, Seq<char>, Option<Seq<char>>)> {
    match o {
        Some(t) => Some((t.text@, t.href@, opt_v(t.logo_src))),
        None => None,
    }
}

fn nav_title_of(dom: &PageDom, html: &str) -> (r: Option<NavTitle>)
    requires
        dom_v(*dom) == spec_parse_dom(html@),
    ensures
        nav_title_v(r) == fp_nav_title(html@),
{
    let ids = sel_v(dom, html, "header .title a");
    match first_v(&ids) {
        Some(i) => {
            let text = el_text_v(&dom.nodes[i]);
            let href = match el_href_v(&dom.nodes[i]) {
                Some(r) => r,
                None => String::new(),
            };
            let ds = desc_v(dom, i);
            let imgs = named_v(dom, &ds, "img");
            let logo_src = match first_v(&imgs) {
                Some(j) => attr_v(&dom.nodes[j], "src"),
                None => None,
            };
            Some(NavTitle { text, href, logo_src })
        },
        None => None,
    }
}

fn edit_link_of(dom: &PageDom, html: &str) -> (r: Option<String>)
    requires
        dom_v(*dom) == spec_parse_dom(html@),
    ensures
        opt_v(r) == fp_edit_link(html@),
{
    let ids = sel_v(dom, html, "div.edit-link a");
    match first_v(&ids) {
        Some(i) => el_href_v(&dom.nodes[i]),
        None => None,
    }
}

fn last_updated_of(dom: &PageDom, html: &str) -> (r: Option<String>)
    requires
        dom_v(*dom) == spec_parse_dom(html@),
    ensures
        opt_v(r) == fp_last_updated(html@),
{
    let ids = sel_v(dom, html, "p[class*=LastUpdated] time");
    match first_v(&ids) {
        Some(i) => match attr_v(&dom.nodes[i], "datetime") {
            Some(t) => {
                let v = to_chars(t.as_str());
                if v.len() <= 10 {
                    Some(t)
                } else {
                    Some(from_chars_range(&v, 0, 10))
                }
            },
            None => None,
        },
        None => None,
    }
}

fn site_footer_of(dom: &PageDom, html: &str) -> (r: Option<Vec<String>>)
    requires
        dom_v(*dom) == spec_parse_dom(html@),
    ensures
        match r {
            Some(v) => fp_site_footer(html@) == Some(v.deep_view()),
            None => fp_site_footer(html@) == None::<Seq<Seq<char>>>,
        },
{
    let ids = sel_v(dom, html, "footer");
    match last_v(&ids) {
        Some(f) => {
            let ds = desc_v(dom, f);
            let ps = named_v(dom, &ds, "p");
            let ts = texts_v(dom, &ps);
            if ts.len() == 0 {
                None
            } else {
                Some(ts)
            }
        },
        None => None,
    }
}

fn block_counts_of(dom: &PageDom, html: &str) -> (r: Option<Vec<(String, usize)>>)
    requires
        dom_v(*dom) == spec_parse_dom(html@),
    ensures
        match r {
            Some(v) => fp_block_counts(html@) == Some(v@.map_values(|p: (String, usize)| (p.0@, p.1))),
            None => fp_block_counts(html@) == None::<Seq<(Seq<char>, usize)>>,
        },
{
    let ids = sel_v(dom, html, "main");
    match first_v(&ids) {
        Some(m) => {
            let ds = desc_v(dom, m);
            let tags = ["blockquote", "h2", "h3", "h4", "h5", "h6", "ol", "pre", "table", "ul"];
            let mut out: Vec<(String, usize)> = Vec::new();
            let mut k: usize = 0;
            while k < 10
                invariant
                    k <= 10,
                    valid_ids(dom_v(*dom), ds@),
                    tags@ == seq!["blockquote", "h2", "h3", "h4", "h5", "h6", "ol", "pre", "table", "ul"],
                    out@.map_values(|p: (String, usize)| (p.0@, p.1)) =~= block_tags().take(k as int).map_values(
                        |t: Seq<char>| (t, named(dom_v(*dom), ds@, t).len() as usize),
                    ),
                decreases 10 - k,
            {
                let tag = tags[k];
                let n = named_v(dom, &ds, tag).len();
                let name = String::from_str(tag);
                let ghost before = out@;
                out.push((name, n));
                assert(block_tags()[k as int] == tag@);
                assert(block_tags().take(k as int + 1) =~= block_tags().take(k as int).push(tag@));
                assert(out@ =~= before.push((name, n)));
                assert(out@.map_values(|p: (String, usize)| (p.0@, p.1)) =~= before.map_values(
                    |p: (String, usize)| (p.0@, p.1),
                ).push((tag@, n)));
                assert(block_tags().take(k as int + 1).map_values(
                    |t: Seq<char>| (t, named(dom_v(*dom), ds@, t).len() as usize),
                ) =~= block_tags().take(k as int).map_values(
                    |t: Seq<char>| (t, named(dom_v(*dom), ds@, t).len() as usize),
                ).push((tag@, n)));
                k += 1;
            }
            assert(block_tags().take(10) =~= block_tags());
            Some(out)
        },
        None => None,
    }
}


/// What `f` gives for each element of `ids`, the `None`s left out.
pub open spec fn collect<A>(ids: Seq<usize>, f: spec_fn(usize) -> Option<A>) -> Seq<A>
    decreases ids.len(),
{
    if ids.len() == 0 {
        Seq::empty()
    } else {
        collect(ids.drop_last(), f) + match f(ids.last()) {
            Some(x) => seq![x],
            None => Seq::empty(),
        }
    }
}

fn str_eq(a: &String, b: &String) -> (r: bool)
    ensures
        r == (a@ == b@),
{
    eq_v(&to_chars(a.as_str()), &to_chars(b.as_str()))
}

/// A link with a non-empty text, its `href` normalized.
pub open spec fn norm_link(d: Seq<NodeV>, a: usize) -> Option<LinkV> {
    match el_href(d[a as int]) {
        Some(r) => if el_text(d[a as int]).len() > 0 {
            Some((el_text(d[a as int]), r))
        } else {
            None
        },
        None => None,
    }
}

/// A link with a non-empty text, its `href` resolved against the page.
pub open spec fn res_link(d: Seq<NodeV>, a: usize, url: Seq<char>) -> Option<LinkV> {
    match attr_of(d[a as int], "href"@) {
        Some(raw) => if el_text(d[a as int]).len() > 0 {
            Some((el_text(d[a as int]), spec_resolve_href(raw, url)))
        } else {
            None
        },
        None => None,
    }
}

fn norm_links_v(dom: &PageDom, ids: &Vec<usize>) -> (r: Vec<Link>)
    requires
        valid_ids(dom_v(*dom), ids@),
    ensures
        links_v(r@) == collect(ids@, |a: usize| norm_link(dom_v(*dom), a)),
{
    let ghost d = dom_v(*dom);
    let mut out: Vec<Link> = Vec::new();
    let mut i: usize = 0;
    assert(ids@.take(0) =~= Seq::<usize>::empty());
    assert(links_v(out@) =~= Seq::<LinkV>::empty());
    while i < ids.len()
        invariant
            d == dom_v(*dom),
            valid_ids(d, ids@),
            i <= ids.len(),
            links_v(out@) == collect(ids@.take(i as int), |a: usize| norm_link(d, a)),
        decreases ids.len() - i,
    {
        assert(ids@.take(i as int + 1).drop_last() =~= ids@.take(i as int));
        let k = ids[i];
        assert(k < d.len());
        let ghost before = out@;
        match el_href_v(&dom.nodes[k]) {
            Some(href) => {
                let text = el_text_v(&dom.nodes[k]);
                if text.unicode_len() > 0 {
                    out.push(Link { text, href });
                    assert(links_v(out@) =~= links_v(before).push(norm_link(d, k).unwrap()));
                }
            },
            None => {},
        }
        i += 1;
    }
    assert(ids@.take(i as int) =~= ids@);
    out
}

fn res_links_v(dom: &PageDom, ids: &Vec<usize>, url: &str) -> (r: Vec<Link>)
    requires
        valid_ids(dom_v(*dom), ids@),
    ensures
        links_v(r@) == collect(ids@, |a: usize| res_link(dom_v(*dom), a, url@)),
{
    let ghost d = dom_v(*dom);
    let mut out: Vec<Link> = Vec::new();
    let mut i: usize = 0;
    assert(ids@.take(0) =~= Seq::<usize>::empty());
    assert(links_v(out@) =~= Seq::<LinkV>::empty());
    while i < ids.len()
        invariant
            d == dom_v(*dom),
            valid_ids(d, ids@),
            i <= ids.len(),
            links_v(out@) == collect(ids@.take(i as int), |a: usize| res_link(d, a, url@)),
        decreases ids.len() - i,
    {
        assert(ids@.take(i as int + 1).drop_last() =~= ids@.take(i as int));
        let k = ids[i];
        assert(k < d.len());
        let ghost before = out@;
        match attr_v(&dom.nodes[k], "href") {
            Some(raw) => {
                let text = el_text_v(&dom.nodes[k]);
                if text.unicode_len() > 0 {
                    let href = resolve_href(raw.as_str(), url);
                    out.push(Link { text, href });
                    assert(links_v(out@) =~= links_v(before).push(res_link(d, k, url@).unwrap()));
                }
            },
            None => {},
        }
        i += 1;
    }
    assert(ids@.take(i as int) =~= ids@);
    out
}

pub type PagerV = (Seq<char>, Seq<char>, Seq<char>);

/// The `k`th text, or nothing.
pub open spec fn text_or_empty(s: Seq<Seq<char>>, k: int) -> Seq<char> {
    if 0 <= k < s.len() {
        s[k]
    } else {
        Seq::empty()
    }
}

/// A pager link: its non-empty `span` texts as description and title.
pub open spec fn pager_item(d: Seq<NodeV>, a: usize) -> Option<PagerV> {
    match el_href(d[a as int]) {
        Some(r) => if r.len() > 0 {
            let spans = texts(d, named(d, desc(d, a), "span"@));
            Some((text_or_empty(spans, 0), text_or_empty(spans, 1), r))
        } else {
            None
        },
        None => None,
    }
}

pub open spec fn fp_pager(h: Seq<char>) -> Seq<PagerV> {
    collect(spec_select(h, "div.pager a"@), |a: usize| pager_item(spec_parse_dom(h), a))
}

pub open spec fn pager_v(s: Seq<PagerItem>) -> Seq<PagerV> {
    s.map_values(|p: PagerItem| (p.desc@, p.title@, p.href@))
}

fn text_or_empty_v(s: &Vec<String>, k: usize) -> (r: String)
    ensures
        r@ == text_or_empty(s.deep_view(), k as int),
{
    if k < s.len() {
        str_clone(&s[k])
    } else {
        String::new()
    }
}

fn pager_of(dom: &PageDom, html: &str) -> (r: Vec<PagerItem>)
    requires
        dom_v(*dom) == spec_parse_dom(html@),
    ensures
        pager_v(r@) == fp_pager(html@),
{
    let ghost d = dom_v(*dom);
    let ids = sel_v(dom, html, "div.pager a");
    let mut out: Vec<PagerItem> = Vec::new();
    let mut i: usize = 0;
    assert(ids@.take(0) =~= Seq::<usize>::empty());
    assert(pager_v(out@) =~= Seq::<PagerV>::empty());
    while i < ids.len()
        invariant
            d == dom_v(*dom),
            valid_ids(d, ids@),
            i <= ids.len(),
            pager_v(out@) == collect(ids@.take(i as int), |a: usize| pager_item(d, a)),
        decreases ids.len() - i,
    {
        assert(ids@.take(i as int + 1).drop_last() =~= ids@.take(i as int));
        let k = ids[i];
        assert(k < d.len());
        let ghost before = out@;
        match el_href_v(&dom.nodes[k]) {
            Some(href) => {
                if href.unicode_len() > 0 {
                    let ds = desc_v(dom, k);
                    let sp = named_v(dom, &ds, "span");
                    let spans = texts_v(dom, &sp);
                    let item = PagerItem {
                        desc: text_or_empty_v(&spans, 0),
                        title: text_or_empty_v(&spans, 1),
                        href,
                    };
                    out.push(item);
                    assert(pager_v(out@) =~= pager_v(before).push(pager_item(d, k).unwrap()));
                }
            },
            None => {},
        }
        i += 1;
    }
    assert(ids@.take(i as int) =~= ids@);
    out
}

/// The outline: absent unless the page has an outline container or
/// outline links; its title, and the links inside the container.
pub open spec fn fp_outline(h: Seq<char>) -> (Option<Seq<char>>, Option<Seq<LinkV>>) {
    let d = spec_parse_dom(h);
    let c = first(spec_select(h, "nav.VPDocAsideOutline"@));
    let local = spec_select(h, "a.outline-link"@);
    if c is None && local.len() == 0 {
        (None, None)
    } else {
        let title = non_empty(text_at(d, first(spec_select(h, "#doc-outline-aria-label, .outline-title"@))));
        let items = match c {
            Some(ci) => collect(within(desc(d, ci), local), |a: usize| norm_link(d, a)),
            None => Seq::empty(),
        };
        (title, Some(items))
    }
}

fn non_empty_v(o: Option<String>) -> (r: Option<String>)
    ensures
        opt_v(r) == non_empty(opt_v(o)),
{
    match o {
        Some(t) => if t.unicode_len() > 0 {
            Some(t)
        } else {
            None
        },
        None => None,
    }
}

fn outline_of(dom: &PageDom, html: &str) -> (r: (Option<String>, Option<Vec<Link>>))
    requires
        dom_v(*dom) == spec_parse_dom(html@),
    ensures
        (opt_v(r.0), match r.1 {
            Some(v) => Some(links_v(v@)),
            None => None,
        }) == fp_outline(html@),
{
    let c = first_v(&sel_v(dom, html, "nav.VPDocAsideOutline"));
    let local = sel_v(dom, html, "a.outline-link");
    if c.is_none() && local.len() == 0 {
        return (None, None);
    }
    let ts = sel_v(dom, html, "#doc-outline-aria-label, .outline-title");
    let title = match first_v(&ts) {
        Some(t) => non_empty_v(Some(el_text_v(&dom.nodes[t]))),
        None => None,
    };
    let items = match c {
        Some(ci) => {
            let ds = desc_v(dom, ci);
            let inside = within_valid(Ghost(dom_v(*dom)), &ds, &local);
            norm_links_v(dom, &inside)
        },
        None => Vec::new(),
    };
    proof {
        if c is None {
            assert(links_v(items@) =~= Seq::<LinkV>::empty());
        }
    }
    (title, Some(items))
}


fn cat_v(a: &Vec<usize>, b: &Vec<usize>) -> (r: Vec<usize>)
    ensures
        r@ == a@ + b@,
{
    let mut out: Vec<usize> = Vec::new();
    let mut i: usize = 0;
    while i < a.len()
        invariant
            i <= a.len(),
            out@ == a@.take(i as int),
        decreases a.len() - i,
    {
        out.push(a[i]);
        assert(a@.take(i as int + 1) =~= a@.take(i as int).push(a@[i as int]));
        i += 1;
    }
    let mut j: usize = 0;
    assert(a@.take(a.len() as int) =~= a@);
    while j < b.len()
        invariant
            j <= b.len(),
            out@ == a@ + b@.take(j as int),
        decreases b.len() - j,
    {
        out.push(b[j]);
        assert(b@.take(j as int + 1) =~= b@.take(j as int).push(b@[j as int]));
        assert(a@ + b@.take(j as int + 1) =~= (a@ + b@.take(j as int)).push(b@[j as int]));
        j += 1;
    }
    assert(b@.take(b.len() as int) =~= b@);
    out
}

// ── hero and features ──────────────────────────────────────────────────

/// Consecutive links with the same `href` kept once (the first).
pub open spec fn dedup_href(s: Seq<LinkV>) -> Seq<LinkV>
    decreases s.len(),
{
    if s.len() == 0 {
        s
    } else {
        let r = dedup_href(s.drop_last());
        if r.len() > 0 && r.last().1 == s.last().1 {
            r
        } else {
            r.push(s.last())
        }
    }
}

/// The hero's action links: the upstream theme's, else this site's.
pub open spec fn hero_actions(h: Seq<char>, url: Seq<char>) -> Seq<LinkV> {
    let d = spec_parse_dom(h);
    let up = collect(spec_select(h, ".VPHero .actions a"@), |a: usize| res_link(d, a, url));
    if up.len() > 0 {
        up
    } else {
        collect(spec_select(h, "h1.heading + p + div a, h1.heading + div a"@), |a: usize| res_link(d, a, url))
    }
}

pub type HeroV = (Seq<Seq<char>>, Option<Seq<char>>, Seq<LinkV>);

/// A hero: the page heading has class `heading` and non-empty spans.
pub open spec fn fp_hero(h: Seq<char>, url: Seq<char>) -> Option<HeroV> {
    let d = spec_parse_dom(h);
    match first(spec_select(h, "main h1, .vp-doc h1, h1.heading"@)) {
        Some(i) => {
            let lines = texts(d, named(d, desc(d, i), "span"@));
            if !has_class(d[i as int], "heading"@) || lines.len() == 0 {
                None
            } else {
                let tagline = non_empty(text_at(d, first(spec_select(h, "h1.heading + p"@))));
                Some((lines, tagline, dedup_href(hero_actions(h, url))))
            }
        },
        None => None,
    }
}

pub open spec fn hero_v(o: Option<Hero>) -> Option<HeroV> {
    match o {
        Some(x) => Some((x.lines.deep_view(), opt_v(x.tagline), links_v(x.actions@))),
        None => None,
    }
}

fn link_clone(l: &Link) -> (r: Link)
    ensures
        link_v(r) == link_v(*l),
{
    Link { text: str_clone(&l.text), href: str_clone(&l.href) }
}

fn dedup_href_v(s: &Vec<Link>) -> (r: Vec<Link>)
    ensures
        links_v(r@) == dedup_href(links_v(s@)),
{
    let ghost sv = links_v(s@);
    let mut out: Vec<Link> = Vec::new();
    let mut i: usize = 0;
    assert(sv.take(0) =~= Seq::<LinkV>::empty());
    assert(links_v(out@) =~= Seq::<LinkV>::empty());
    while i < s.len()
        invariant
            sv == links_v(s@),
            i <= s.len(),
            links_v(out@) == dedup_href(sv.take(i as int)),
        decreases s.len() - i,
    {
        assert(sv.take(i as int + 1).drop_last() =~= sv.take(i as int));
        assert(sv.take(i as int + 1).last() == link_v(s@[i as int]));
        let keep = if out.len() > 0 {
            assert(links_v(out@).last() == link_v(out@[out.len() - 1]));
            !str_eq(&out[out.len() - 1].href, &s[i].href)
        } else {
            true
        };
        let ghost before = out@;
        if keep {
            out.push(link_clone(&s[i]));
            assert(links_v(out@) =~= links_v(before).push(link_v(s@[i as int])));
        }
        i += 1;
    }
    assert(sv.take(i as int) =~= sv);
    out
}

fn hero_of(dom: &PageDom, html: &str, url: &str) -> (r: Option<Hero>)
    requires
        dom_v(*dom) == spec_parse_dom(html@),
    ensures
        hero_v(r) == fp_hero(html@, url@),
{
    let ghost d = dom_v(*dom);
    let hs = sel_v(dom, html, "main h1, .vp-doc h1, h1.heading");
    let i = match first_v(&hs) {
        Some(i) => i,
        None => {
            return None;
        },
    };
    let ds = desc_v(dom, i);
    let sp = named_v(dom, &ds, "span");
    let lines = texts_v(dom, &sp);
    if !has_class_v(&dom.nodes[i], "heading") || lines.len() == 0 {
        return None;
    }
    let tl = sel_v(dom, html, "h1.heading + p");
    let tagline = match first_v(&tl) {
        Some(t) => non_empty_v(Some(el_text_v(&dom.nodes[t]))),
        None => None,
    };
    let up = res_links_v(dom, &sel_v(dom, html, ".VPHero .actions a"), url);
    let acts = if up.len() > 0 {
        up
    } else {
        res_links_v(dom, &sel_v(dom, html, "h1.heading + p + div a, h1.heading + div a"), url)
    };
    let actions = dedup_href_v(&acts);
    Some(Hero { lines, tagline, actions })
}

pub open spec fn feature_titles(fs: Seq<LinkV>) -> Seq<Seq<char>> {
    fs.map_values(|f: LinkV| f.0)
}

/// Each feature card's `h2` text and first paragraph, a title kept once.
pub open spec fn features_of(d: Seq<NodeV>, arts: Seq<usize>) -> Seq<LinkV>
    decreases arts.len(),
{
    if arts.len() == 0 {
        Seq::empty()
    } else {
        let fs = features_of(d, arts.drop_last());
        let ds = desc(d, arts.last());
        match first(named(d, ds, "h2"@)) {
            Some(t) => {
                let title = el_text(d[t as int]);
                if title.len() == 0 || feature_titles(fs).contains(title) {
                    fs
                } else {
                    let details = match text_at(d, first(named(d, ds, "p"@))) {
                        Some(x) => x,
                        None => Seq::empty(),
                    };
                    fs.push((title, details))
                }
            },
            None => fs,
        }
    }
}

pub open spec fn fp_features(h: Seq<char>) -> Option<Seq<LinkV>> {
    let fs = features_of(
        spec_parse_dom(h),
        spec_select(h, ".VPFeature article"@) + spec_select(h, "li > div > article"@),
    );
    if fs.len() == 0 {
        None
    } else {
        Some(fs)
    }
}

pub open spec fn features_v(s: Seq<Feature>) -> Seq<LinkV> {
    s.map_values(|x: Feature| (x.title@, x.details@))
}

fn has_title_v(fs: &Vec<Feature>, t: &String) -> (r: bool)
    ensures
        r == feature_titles(features_v(fs@)).contains(t@),
{
    let ghost tv = feature_titles(features_v(fs@));
    let mut j: usize = 0;
    while j < fs.len()
        invariant
            tv == feature_titles(features_v(fs@)),
            j <= fs.len(),
            forall|k: int| 0 <= k < j ==> tv[k] != t@,
        decreases fs.len() - j,
    {
        assert(tv[j as int] == fs@[j as int].title@);
        if str_eq(&fs[j].title, t) {
            assert(tv.contains(t@));
            return true;
        }
        j += 1;
    }
    false
}

fn features_of_v(dom: &PageDom, arts: &Vec<usize>) -> (r: Vec<Feature>)
    requires
        valid_ids(dom_v(*dom), arts@),
    ensures
        features_v(r@) == features_of(dom_v(*dom), arts@),
{
    let ghost d = dom_v(*dom);
    let mut out: Vec<Feature> = Vec::new();
    let mut i: usize = 0;
    assert(arts@.take(0) =~= Seq::<usize>::empty());
    assert(features_v(out@) =~= Seq::<LinkV>::empty());
    while i < arts.len()
        invariant
            d == dom_v(*dom),
            valid_ids(d, arts@),
            i <= arts.len(),
            features_v(out@) == features_of(d, arts@.take(i as int)),
        decreases arts.len() - i,
    {
        assert(arts@.take(i as int + 1).drop_last() =~= arts@.take(i as int));
        let a = arts[i];
        assert(a < d.len());
        let ds = desc_v(dom, a);
        let h2s = named_v(dom, &ds, "h2");
        match first_v(&h2s) {
            Some(t) => {
                let title = el_text_v(&dom.nodes[t]);
                if title.unicode_len() > 0 && !has_title_v(&out, &title) {
                    let ps = named_v(dom, &ds, "p");
                    let details = match first_v(&ps) {
                        Some(p) => el_text_v(&dom.nodes[p]),
                        None => String::new(),
                    };
                    let ghost before = out@;
                    let ghost item = (title@, details@);
                    out.push(Feature { title, details });
                    assert(features_v(out@) =~= features_v(before).push(item));
                }
            },
            None => {},
        }
        i += 1;
    }
    assert(arts@.take(i as int) =~= arts@);
    out
}

fn features_of_page(dom: &PageDom, html: &str) -> (r: Option<Vec<Feature>>)
    requires
        dom_v(*dom) == spec_parse_dom(html@),
    ensures
        match r {
            Some(v) => fp_features(html@) == Some(features_v(v@)),
            None => fp_features(html@) == None::<Seq<LinkV>>,
        },
{
    let up = sel_v(dom, html, ".VPFeature article");
    let local = sel_v(dom, html, "li > div > article");
    let arts = cat_v(&up, &local);
    assert(valid_ids(dom_v(*dom), arts@)) by {
        assert forall|k: int| 0 <= k < arts@.len() implies #[trigger] arts@[k] < dom_v(*dom).len() by {
            if k < up@.len() {
                assert(arts@[k] == up@[k]);
            } else {
                assert(arts@[k] == local@[k - up@.len()]);
            }
        }
    }
    let fs = features_of_v(dom, &arts);
    if fs.len() == 0 {
        None
    } else {
        Some(fs)
    }
}


// ── navbar and sidebar ─────────────────────────────────────────────────

/// A navbar `li`: its first child `a` with an `href` as a link, else a
/// group labelled by its button (or `.text`) holding its links.
pub open spec fn nav_item(d: Seq<NodeV>, li: usize, text_class: Seq<usize>) -> Option<NavItemV> {
    if d[li as int].name != "li"@ {
        None
    } else {
        let ds = desc(d, li);
        let direct = match first(named(d, kids(d, ds, li), "a"@)) {
            Some(a) => match el_href(d[a as int]) {
                Some(r) => Some(NavItemV::Link(el_text(d[a as int]), r)),
                None => None,
            },
            None => None,
        };
        if direct is Some {
            direct
        } else {
            let label = match non_empty(text_at(d, first(named(d, ds, "button"@)))) {
                Some(t) => t,
                None => match text_at(d, first(within(ds, text_class))) {
                    Some(t) => t,
                    None => Seq::empty(),
                },
            };
            let items = collect(named(d, ds, "a"@), |a: usize| norm_link(d, a));
            if label.len() > 0 || items.len() > 0 {
                Some(NavItemV::Group(label, items))
            } else {
                None
            }
        }
    }
}

/// The items of the main navigation's first list.
pub open spec fn fp_nav_items(h: Seq<char>) -> Seq<NavItemV> {
    let d = spec_parse_dom(h);
    match first(spec_select(h, "header nav[aria-label='Main Navigation']"@)) {
        Some(nav) => match first(named(d, desc(d, nav), "ul"@)) {
            Some(list) => collect(
                kids(d, desc(d, list), list),
                |li: usize| nav_item(d, li, spec_select(h, ".text"@)),
            ),
            None => Seq::empty(),
        },
        None => Seq::empty(),
    }
}

pub open spec fn nav_items_v(s: Seq<NavItem>) -> Seq<NavItemV> {
    s.map_values(|n: NavItem| nav_item_v(n))
}

fn nav_item_of(dom: &PageDom, li: usize, text_class: &Vec<usize>) -> (r: Option<NavItem>)
    requires
        li < dom.nodes.len(),
    ensures
        match r {
            Some(n) => nav_item(dom_v(*dom), li, text_class@) == Some(nav_item_v(n)),
            None => nav_item(dom_v(*dom), li, text_class@) is None,
        },
{
    let ghost d = dom_v(*dom);
    if !name_is(&dom.nodes[li], "li") {
        return None;
    }
    let ds = desc_v(dom, li);
    let ks = kids_v(dom, &ds, li);
    let anchors = named_v(dom, &ks, "a");
    match first_v(&anchors) {
        Some(a) => match el_href_v(&dom.nodes[a]) {
            Some(href) => {
                return Some(NavItem::Link { text: el_text_v(&dom.nodes[a]), href });
            },
            None => {},
        },
        None => {},
    }
    let buttons = named_v(dom, &ds, "button");
    let b = match first_v(&buttons) {
        Some(k) => non_empty_v(Some(el_text_v(&dom.nodes[k]))),
        None => None,
    };
    let label = match b {
        Some(t) => t,
        None => {
            let tx = within_valid(Ghost(d), &ds, text_class);
            match first_v(&tx) {
                Some(k) => el_text_v(&dom.nodes[k]),
                None => String::new(),
            }
        },
    };
    let all = named_v(dom, &ds, "a");
    let items = norm_links_v(dom, &all);
    if label.unicode_len() > 0 || items.len() > 0 {
        Some(NavItem::Group { text: label, items })
    } else {
        None
    }
}

fn nav_items_of(dom: &PageDom, html: &str) -> (r: Vec<NavItem>)
    requires
        dom_v(*dom) == spec_parse_dom(html@),
    ensures
        nav_items_v(r@) == fp_nav_items(html@),
{
    let ghost d = dom_v(*dom);
    let navs = sel_v(dom, html, "header nav[aria-label='Main Navigation']");
    let nav = match first_v(&navs) {
        Some(n) => n,
        None => {
            return Vec::new();
        },
    };
    let nd = desc_v(dom, nav);
    let uls = named_v(dom, &nd, "ul");
    let list = match first_v(&uls) {
        Some(l) => l,
        None => {
            return Vec::new();
        },
    };
    let text_class = sel_v(dom, html, ".text");
    let ld = desc_v(dom, list);
    let lis = kids_v(dom, &ld, list);
    let mut out: Vec<NavItem> = Vec::new();
    let mut i: usize = 0;
    assert(lis@.take(0) =~= Seq::<usize>::empty());
    assert(nav_items_v(out@) =~= Seq::<NavItemV>::empty());
    while i < lis.len()
        invariant
            d == dom_v(*dom),
            valid_ids(d, lis@),
            i <= lis.len(),
            nav_items_v(out@) == collect(lis@.take(i as int), |li: usize| nav_item(d, li, text_class@)),
        decreases lis.len() - i,
    {
        assert(lis@.take(i as int + 1).drop_last() =~= lis@.take(i as int));
        let li = lis[i];
        assert(li < d.len());
        let ghost before = out@;
        match nav_item_of(dom, li, &text_class) {
            Some(n) => {
                out.push(n);
                assert(nav_items_v(out@) =~= nav_items_v(before).push(nav_item_v(n)));
            },
            None => {},
        }
        i += 1;
    }
    assert(lis@.take(i as int) =~= lis@);
    out
}

/// A sidebar element: a link (not to an anchor) with its `ul` depth, or
/// a group's `.text` label directly inside an `.item`, outside links.
pub open spec fn sidebar_entry(d: Seq<NodeV>, j: usize) -> Option<EntryV> {
    let n = d[j as int];
    if n.name == "a"@ {
        match el_href(n) {
            Some(r) => if starts_with(r, "#"@) || el_text(n).len() == 0 {
                None
            } else {
                Some(("link"@, el_text(n), Some(r), Some(ul_depth(d, j as int) as usize)))
            },
            None => None,
        }
    } else if has_class(n, "text"@) {
        let in_item = match n.parent {
            Some(p) => p < d.len() && has_class(d[p as int], "item"@),
            None => false,
        };
        if anc_named(d, j as int, "a"@) || !in_item || el_text(n).len() == 0 {
            None
        } else {
            Some(("group"@, el_text(n), None, None))
        }
    } else {
        None
    }
}

/// The entries of the sidebar's `nav`, itself and what it encloses in
/// document order.
pub open spec fn fp_sidebar(h: Seq<char>) -> Seq<EntryV> {
    let d = spec_parse_dom(h);
    match first(spec_select(h, "aside.VPSidebar nav"@)) {
        Some(nav) => collect(seq![nav] + desc(d, nav), |j: usize| sidebar_entry(d, j)),
        None => Seq::empty(),
    }
}

pub open spec fn entries_v(s: Seq<SidebarEntry>) -> Seq<EntryV> {
    s.map_values(|e: SidebarEntry| entry_v(e))
}

fn sidebar_entry_of(dom: &PageDom, j: usize) -> (r: Option<SidebarEntry>)
    requires
        j < dom.nodes.len(),
    ensures
        match r {
            Some(e) => sidebar_entry(dom_v(*dom), j) == Some(entry_v(e)),
            None => sidebar_entry(dom_v(*dom), j) is None,
        },
{
    let ghost d = dom_v(*dom);
    let n = &dom.nodes[j];
    if name_is(n, "a") {
        match el_href_v(n) {
            Some(href) => {
                let text = el_text_v(n);
                if starts_with_str(&to_chars(href.as_str()), "#") || text.unicode_len() == 0 {
                    None
                } else {
                    let depth = ul_depth_v(dom, j);
                    Some(SidebarEntry { kind: String::from_str("link"), text, href: Some(href), depth: Some(depth) })
                }
            },
            None => None,
        }
    } else if has_class_v(n, "text") {
        let in_item = match parent_v(dom, j) {
            Some(p) => p < dom.nodes.len() && has_class_v(&dom.nodes[p], "item"),
            None => false,
        };
        let text = el_text_v(n);
        if anc_named_v(dom, j, "a") || !in_item || text.unicode_len() == 0 {
            None
        } else {
            Some(SidebarEntry { kind: String::from_str("group"), text, href: None, depth: None })
        }
    } else {
        None
    }
}

fn sidebar_of(dom: &PageDom, html: &str) -> (r: Vec<SidebarEntry>)
    requires
        dom_v(*dom) == spec_parse_dom(html@),
    ensures
        entries_v(r@) == fp_sidebar(html@),
{
    let ghost d = dom_v(*dom);
    let navs = sel_v(dom, html, "aside.VPSidebar nav");
    let nav = match first_v(&navs) {
        Some(n) => n,
        None => {
            return Vec::new();
        },
    };
    let nd = desc_v(dom, nav);
    let mut one: Vec<usize> = Vec::new();
    one.push(nav);
    let ids = cat_v(&one, &nd);
    assert(one@ =~= seq![nav]);
    assert(valid_ids(d, ids@)) by {
        assert forall|k: int| 0 <= k < ids@.len() implies #[trigger] ids@[k] < d.len() by {
            if k > 0 {
                assert(ids@[k] == nd@[k - 1]);
            }
        }
    }
    let mut out: Vec<SidebarEntry> = Vec::new();
    let mut i: usize = 0;
    assert(ids@.take(0) =~= Seq::<usize>::empty());
    assert(entries_v(out@) =~= Seq::<EntryV>::empty());
    while i < ids.len()
        invariant
            d == dom_v(*dom),
            valid_ids(d, ids@),
            i <= ids.len(),
            entries_v(out@) == collect(ids@.take(i as int), |j: usize| sidebar_entry(d, j)),
        decreases ids.len() - i,
    {
        assert(ids@.take(i as int + 1).drop_last() =~= ids@.take(i as int));
        let j = ids[i];
        assert(j < d.len());
        let ghost before = out@;
        match sidebar_entry_of(dom, j) {
            Some(e) => {
                out.push(e);
                assert(entries_v(out@) =~= entries_v(before).push(entry_v(e)));
            },
            None => {},
        }
        i += 1;
    }
    assert(ids@.take(i as int) =~= ids@);
    out
}


// ── the whole page ─────────────────────────────────────────────────────

pub open spec fn fp_view(f: PageFingerprint) -> FpV {
    FpV {
        title: opt_v(f.title),
        h1: h1_v(f.h1),
        nav_title: nav_title_v(f.nav_title),
        nav_items: nav_items_v(f.nav_items@),
        sidebar: entries_v(f.sidebar@),
        outline_title: opt_v(f.outline_title),
        outline_items: match f.outline_items {
            Some(v) => Some(links_v(v@)),
            None => None,
        },
        pager: pager_v(f.pager@),
        edit_link: opt_v(f.edit_link),
        last_updated: opt_v(f.last_updated),
        site_footer: match f.site_footer {
            Some(v) => Some(v.deep_view()),
            None => None,
        },
        hero: hero_v(f.hero),
        features: match f.features {
            Some(v) => Some(features_v(v@)),
            None => None,
        },
        has_search: f.has_search,
        has_main: f.has_main,
        block_counts: match f.block_counts {
            Some(v) => Some(v@.map_values(|p: (String, usize)| (p.0@, p.1))),
            None => None,
        },
    }
}

/// The landmark fingerprint of the page `h` at `url`, over the elements
/// scraper parses it into and the elements its selectors match.
pub open spec fn spec_fingerprint(h: Seq<char>, url: Seq<char>) -> FpV {
    FpV {
        title: fp_title(h),
        h1: fp_h1(h),
        nav_title: fp_nav_title(h),
        nav_items: fp_nav_items(h),
        sidebar: fp_sidebar(h),
        outline_title: fp_outline(h).0,
        outline_items: fp_outline(h).1,
        pager: fp_pager(h),
        edit_link: fp_edit_link(h),
        last_updated: fp_last_updated(h),
        site_footer: fp_site_footer(h),
        hero: fp_hero(h, url),
        features: fp_features(h),
        has_search: spec_select(h, ".VPNavBarSearch, #VPSearchButton"@).len() > 0,
        has_main: spec_select(h, "main"@).len() > 0,
        block_counts: fp_block_counts(h),
    }
}

/// The landmark fingerprint of a rendered page.
pub fn extract(html: &str, url: &str) -> (r: PageFingerprint)
    ensures
        fp_view(r) == spec_fingerprint(html@, url@),
{
    let dom = parse_dom(html);
    let (outline_title, outline_items) = outline_of(&dom, html);
    let has_search = sel_v(&dom, html, ".VPNavBarSearch, #VPSearchButton").len() > 0;
    let has_main = sel_v(&dom, html, "main").len() > 0;
    PageFingerprint {
        title: title_v(&dom, html),
        h1: h1_of(&dom, html),
        nav_title: nav_title_of(&dom, html),
        nav_items: nav_items_of(&dom, html),
        sidebar: sidebar_of(&dom, html),
        outline_title,
        outline_items,
        pager: pager_of(&dom, html),
        edit_link: edit_link_of(&dom, html),
        last_updated: last_updated_of(&dom, html),
        site_footer: site_footer_of(&dom, html),
        hero: hero_of(&dom, html, url),
        features: features_of_page(&dom, html),
        has_search,
        has_main,
        block_counts: block_counts_of(&dom, html),
    }
}


/// Extraction is deterministic: two fingerprints extracted from the same
/// page at the same URL are equal, landmark for landmark.
pub proof fn law_extraction_is_deterministic(html: Seq<char>, url: Seq<char>, a: PageFingerprint, b: PageFingerprint)
    requires
        fp_view(a) == spec_fingerprint(html, url),
        fp_view(b) == spec_fingerprint(html, url),
    ensures
        fp_view(a) == fp_view(b),
{
}

} // verus!
