//! Sidebar resolution: VitePress's explicit forms (one array, or
//! sections keyed by URL prefix with `{ base, items }`) plus the derived
//! fallback (one sidebar per top-level content section, in natural file
//! order). Also the flat page order used for prev/next pagers, which
//! VitePress takes from the active sidebar.

use std::cmp::Ordering;

use vstd::prelude::*;

use crate::config::{Sidebar, SidebarItem, SidebarSection, SiteConfig};
use crate::content::{
    lemma_insert_by_at, natural_cmp, natural_order_of, page_index,
    sort_by_key, Content, Page,
};
use crate::markdown::preprocess::{find_from, find_from_v, lemma_find_from};
use crate::text::{
    ends_with, ends_with_str, eq_str, eq_v, from_chars, ix, push_all, push_str, slice_of,
    starts_with, starts_with_str, starts_with_v, to_chars, lex_lt, lex_lt_v, lemma_lex_total,
    lemma_lex_transitive, };

verus! {

broadcast use vstd::string::group_string_axioms;

// ── link resolution ────────────────────────────────────────────────────

/// The pieces of `s[i..]` split on `c` (`str::split`: `n` separators
/// give `n + 1` pieces).
pub open spec fn pieces_from(s: Seq<char>, c: char, i: int) -> Seq<Seq<char>>
    decreases s.len() - i,
{
    if i < 0 || i > s.len() {
        Seq::empty()
    } else {
        let j = find_from(s, c, i);
        proof {
            lemma_find_from(s, c, i);
        }
        if j < i {
            seq![s.skip(i)]
        } else {
            seq![s.subrange(i, j)] + pieces_from(s, c, j + 1)
        }
    }
}

/// `str::split(c)`.
pub open spec fn split_on(s: Seq<char>, c: char) -> Seq<Seq<char>> {
    pieces_from(s, c, 0)
}

/// `.`/`..` resolution over path segments: empty and `.` segments
/// vanish, `..` drops the previous kept segment.
pub open spec fn dot_fold(segs: Seq<Seq<char>>) -> Seq<Seq<char>>
    decreases segs.len(),
{
    if segs.len() == 0 {
        Seq::empty()
    } else {
        let acc = dot_fold(segs.drop_last());
        let seg = segs.last();
        if seg.len() == 0 || seg == "."@ {
            acc
        } else if seg == ".."@ {
            if acc.len() > 0 {
                acc.drop_last()
            } else {
                acc
            }
        } else {
            acc.push(seg)
        }
    }
}

/// `xs` joined with `sep` between consecutive items.
pub open spec fn join_with(xs: Seq<Seq<char>>, sep: Seq<char>) -> Seq<char>
    decreases xs.len(),
{
    if xs.len() == 0 {
        Seq::empty()
    } else if xs.len() == 1 {
        xs[0]
    } else {
        join_with(xs.drop_last(), sep) + sep + xs.last()
    }
}

/// A path with `.`/`..` segments resolved, rooted at `/`.
pub open spec fn spec_normalize_dots(path: Seq<char>) -> Seq<char> {
    "/"@ + join_with(dot_fold(split_on(path, '/')), "/"@)
}

/// The text before the first `#`.
pub open spec fn before_hash(url: Seq<char>) -> Seq<char> {
    let j = find_from(url, '#', 0);
    if j < 0 {
        url
    } else {
        url.take(j)
    }
}

/// The canonical form of a URL that names a known page (the exact URL,
/// else with a trailing slash added, anchors dropped); other URLs pass
/// through unchanged.
pub open spec fn spec_canonical(url: Seq<char>, pages: Seq<Page>) -> Seq<char> {
    let stripped = before_hash(url);
    let slashed = if ends_with(stripped, "/"@) {
        stripped
    } else {
        stripped + "/"@
    };
    if page_index(pages, stripped) >= 0 {
        stripped
    } else if page_index(pages, slashed) >= 0 {
        slashed
    } else {
        url
    }
}

pub open spec fn is_external(link: Seq<char>) -> bool {
    starts_with(link, "http://"@) || starts_with(link, "https://"@) || starts_with(link, "mailto:"@)
}

/// One sidebar link resolved against its base: external links verbatim,
/// absolute links canonicalized, relative links joined to the base,
/// dot-normalized and canonicalized.
pub open spec fn spec_resolve_link(link: Seq<char>, base: Seq<char>, pages: Seq<Page>) -> Seq<char> {
    if is_external(link) {
        link
    } else if starts_with(link, "/"@) {
        spec_canonical(link, pages)
    } else {
        spec_canonical(spec_normalize_dots(base + link), pages)
    }
}

pub proof fn lemma_pieces_step(s: Seq<char>, c: char, i: int)
    requires
        0 <= i <= s.len(),
    ensures
        find_from(s, c, i) == -1 ==> pieces_from(s, c, i) == seq![s.skip(i)],
        find_from(s, c, i) >= 0 ==> i <= find_from(s, c, i) < s.len() && pieces_from(s, c, i)
            == seq![s.subrange(i, find_from(s, c, i))] + pieces_from(s, c, find_from(s, c, i) + 1),
{
    lemma_find_from(s, c, i);
}

/// Appends `acc` joined with `sep`.
pub fn join_push_sep(out: &mut Vec<char>, acc: &Vec<Vec<char>>, sep: &str)
    ensures
        final(out)@ == old(out)@ + join_with(acc.deep_view(), sep@),
{
    let mut k: usize = 0;
    let ghost xs = acc.deep_view();
    let ghost start = out@;
    assert(xs.take(0) =~= Seq::<Seq<char>>::empty());
    while k < acc.len()
        invariant
            k <= acc.len(),
            xs == acc.deep_view(),
            xs.len() == acc.len(),
            out@ == start + join_with(xs.take(ix(k)), sep@),
        decreases acc.len() - k,
    {
        if k > 0 {
            push_str(out, sep);
        }
        push_all(out, &acc[k]);
        proof {
            assert(xs.take(k + 1).drop_last() =~= xs.take(ix(k)));
            assert(xs[ix(k)] == acc@[ix(k)]@);
            if k == 0 {
                assert(xs.take(1) =~= seq![xs[0]]);
            }
        }
        k += 1;
    }
    assert(xs.take(acc.len() as int) =~= xs);
}

/// Resolve `.`/`..` path segments.
pub fn normalize_dots(path: &str) -> (r: String)
    ensures
        r@ == spec_normalize_dots(path@),
{
    let v = to_chars(path);
    let mut acc: Vec<Vec<char>> = Vec::new();
    let mut i: usize = 0;
    let ghost segs = split_on(v@, '/');
    let ghost mut done: Seq<Seq<char>> = Seq::empty();
    proof {
        reveal_strlit(".");
        reveal_strlit("..");
    }
    loop
        invariant
            i <= v.len(),
            v@ == path@,
            segs == split_on(v@, '/'),
            segs == done + pieces_from(v@, '/', ix(i)),
            acc.deep_view() == dot_fold(done),
        decreases v.len() - i,
    {
        proof {
            lemma_pieces_step(v@, '/', ix(i));
        }
        let j_opt = find_from_v(&v, '/', i);
        let end: usize = match j_opt {
            Some(j) => j,
            None => v.len(),
        };
        let seg = slice_of(&v, i, end);
        proof {
            if j_opt is None {
                assert(seg@ =~= v@.skip(ix(i)));
            }
        }
        let ghost before = acc.deep_view();
        if seg.len() == 0 || eq_str(&seg, ".") {
        } else if eq_str(&seg, "..") {
            if acc.len() > 0 {
                acc.pop();
                assert(acc.deep_view() =~= before.drop_last());
            }
        } else {
            let ghost sv = seg@;
            assert(seg.deep_view() =~= sv);
            acc.push(seg);
            assert(acc.deep_view() =~= before.push(sv));
        }
        proof {
            let nd = done.push(seg@);
            assert(nd.drop_last() =~= done);
            done = nd;
        }
        match j_opt {
            Some(j) => {
                proof {
                    assert(segs =~= done + pieces_from(v@, '/', j + 1));
                }
                i = j + 1;
            },
            None => {
                assert(segs =~= done);
                let mut out = to_chars("/");
                join_push_sep(&mut out, &acc, "/");
                return from_chars(&out);
            },
        }
    }
}

pub(crate) fn before_hash_v(v: &Vec<char>) -> (r: Vec<char>)
    ensures
        r@ == before_hash(v@),
        r@.len() <= v@.len(),
        r@ == v@.take(r@.len() as int),
{
    proof {
        lemma_find_from(v@, '#', 0);
    }
    match find_from_v(v, '#', 0) {
        Some(j) => {
            let r = slice_of(v, 0, j);
            assert(r@ =~= v@.take(ix(j)));
            r
        },
        None => {
            let r = slice_of(v, 0, v.len());
            assert(r@ =~= v@.take(v@.len() as int));
            r
        },
    }
}

/// The canonical URL of a known page, or the URL unchanged.
pub fn canonical(url: &str, content: &Content) -> (r: String)
    ensures
        r@ == spec_canonical(url@, content.pages@),
{
    let v = to_chars(url);
    let stripped = before_hash_v(&v);
    let ss = from_chars(&stripped);
    if content.get(ss.as_str()).is_some() {
        return ss;
    }
    let slashed = if ends_with_str(&stripped, "/") {
        stripped.clone()
    } else {
        let mut x = stripped.clone();
        push_str(&mut x, "/");
        x
    };
    let sl = from_chars(&slashed);
    if content.get(sl.as_str()).is_some() {
        return sl;
    }
    String::from_str(url)
}

/// Resolve one sidebar link against its base into an absolute URL.
pub fn resolve_link(link: &str, base: &str, content: &Content) -> (r: String)
    ensures
        r@ == spec_resolve_link(link@, base@, content.pages@),
{
    let l = to_chars(link);
    if starts_with_str(&l, "http://") || starts_with_str(&l, "https://") || starts_with_str(
        &l,
        "mailto:",
    ) {
        return String::from_str(link);
    }
    if starts_with_str(&l, "/") {
        return canonical(link, content);
    }
    let mut joined = to_chars(base);
    push_all(&mut joined, &l);
    let js = from_chars(&joined);
    let n = normalize_dots(js.as_str());
    canonical(n.as_str(), content)
}

/// A sidebar key as a `/…/` prefix.
pub open spec fn spec_ensure_slashed(prefix: Seq<char>) -> Seq<char> {
    let lead = if starts_with(prefix, "/"@) {
        prefix
    } else {
        "/"@ + prefix
    };
    if ends_with(lead, "/"@) {
        lead
    } else {
        lead + "/"@
    }
}

pub fn ensure_slashed(prefix: &str) -> (r: String)
    ensures
        r@ == spec_ensure_slashed(prefix@),
{
    let p = to_chars(prefix);
    let lead = if starts_with_str(&p, "/") {
        p
    } else {
        let mut x = to_chars("/");
        push_all(&mut x, &p);
        x
    };
    let out = if ends_with_str(&lead, "/") {
        lead
    } else {
        let mut x = lead;
        push_str(&mut x, "/");
        x
    };
    from_chars(&out)
}

/// The first path segment of a `/`-rooted URL, when non-empty.
pub open spec fn spec_top_segment(url: Seq<char>) -> Option<Seq<char>> {
    if !starts_with(url, "/"@) {
        None
    } else {
        let seg = before_slash(url.skip(1));
        if seg.len() == 0 {
            None
        } else {
            Some(seg)
        }
    }
}

/// The text before the first `/`.
pub open spec fn before_slash(s: Seq<char>) -> Seq<char> {
    let j = find_from(s, '/', 0);
    if j < 0 {
        s
    } else {
        s.take(j)
    }
}

pub fn top_segment(url: &str) -> (r: Option<String>)
    ensures
        match r {
            Some(s) => spec_top_segment(url@) == Some(s@),
            None => spec_top_segment(url@) is None,
        },
{
    let v = to_chars(url);
    if !starts_with_str(&v, "/") {
        return None;
    }
    proof {
        reveal_strlit("/");
    }
    let rest = slice_of(&v, 1, v.len());
    assert(rest@ =~= v@.skip(1));
    proof {
        lemma_find_from(rest@, '/', 0);
    }
    let seg = match find_from_v(&rest, '/', 0) {
        Some(j) => {
            let r = slice_of(&rest, 0, j);
            assert(r@ =~= rest@.take(ix(j)));
            r
        },
        None => rest,
    };
    if seg.len() == 0 {
        None
    } else {
        Some(from_chars(&seg))
    }
}

/// The content directory of a site directory (`site/content`), joined
/// the way a relative path component joins a directory.
pub open spec fn spec_content_dir(site_dir: Seq<char>) -> Seq<char> {
    if site_dir.len() == 0 {
        "content"@
    } else if ends_with(site_dir, "/"@) {
        site_dir + "content"@
    } else {
        site_dir + "/content"@
    }
}

pub fn content_dir(site_dir: &str) -> (r: String)
    ensures
        r@ == spec_content_dir(site_dir@),
{
    let v = to_chars(site_dir);
    if v.len() == 0 {
        return String::from_str("content");
    }
    let mut out = v.clone();
    if ends_with_str(&v, "/") {
        push_str(&mut out, "content");
    } else {
        push_str(&mut out, "/content");
    }
    from_chars(&out)
}


// ── the resolved model ─────────────────────────────────────────────────

/// A resolved sidebar node: `url` is absolute and base-free, with a
/// trailing slash when it points at an internal page.
#[derive(Debug, PartialEq)]
pub struct SidebarNode {
    pub text: String,
    pub url: Option<String>,
    pub children: Vec<SidebarNode>,
    pub collapsed: Option<bool>,
}

/// One sidebar, applying to every URL under `prefix`.
#[derive(Debug, PartialEq)]
pub struct SidebarTree {
    pub prefix: String,
    pub items: Vec<SidebarNode>,
}

/// The UTF-8 byte length of a text (`str::len`).
pub open spec fn byte_len(s: Seq<char>) -> usize {
    vstd::utf8::encode_utf8(s).len() as usize
}

/// Does a tree with `prefix` own `url`? (prefix match)
pub open spec fn covers(prefix: Seq<char>, url: Seq<char>) -> bool {
    url == prefix || prefix == "/"@ || starts_with(url, prefix)
}

/// Tree `k` is the one that owns `url`: it covers `url`, no covering tree
/// has a longer prefix, and no later covering tree has one as long.
pub open spec fn is_best(trees: Seq<SidebarTree>, url: Seq<char>, k: int) -> bool {
    &&& 0 <= k < trees.len()
    &&& covers(trees[k].prefix@, url)
    &&& forall|j: int|
        0 <= j < trees.len() && covers(trees[j].prefix@, url) ==> byte_len(
            #[trigger] trees[j].prefix@,
        ) <= byte_len(trees[k].prefix@)
    &&& forall|j: int|
        k < j < trees.len() && covers(trees[j].prefix@, url) ==> byte_len(
            #[trigger] trees[j].prefix@,
        ) < byte_len(trees[k].prefix@)
}

/// No tree owns `url`.
pub open spec fn none_covers(trees: Seq<SidebarTree>, url: Seq<char>) -> bool {
    forall|j: int| 0 <= j < trees.len() ==> !covers(#[trigger] trees[j].prefix@, url)
}

/// The (text, url) pairs of a node and its descendants that carry an
/// internal link (one starting with `/`), in display order.
pub open spec fn flat_node(n: SidebarNode) -> Seq<(Seq<char>, Seq<char>)>
    decreases n, 1int,
{
    let own = match n.url {
        Some(u) => if starts_with(u@, "/"@) {
            seq![(n.text@, u@)]
        } else {
            Seq::empty()
        },
        None => Seq::empty(),
    };
    own + flat_nodes(n.children@)
}

/// `flat_node` over a list of siblings.
pub open spec fn flat_nodes(ns: Seq<SidebarNode>) -> Seq<(Seq<char>, Seq<char>)>
    decreases ns, 0int,
{
    if ns.len() == 0 {
        Seq::empty()
    } else {
        flat_nodes(ns.drop_last()) + flat_node(ns.last())
    }
}


/// The first index of a pair whose URL is `url`, or -1.
pub open spec fn first_url_index(flat: Seq<(Seq<char>, Seq<char>)>, url: Seq<char>) -> int
    decreases flat.len(),
{
    if flat.len() == 0 {
        -1
    } else if first_url_index(flat.drop_last(), url) >= 0 {
        first_url_index(flat.drop_last(), url)
    } else if flat.last().1 == url {
        flat.len() - 1
    } else {
        -1
    }
}

pub proof fn lemma_first_url_index(flat: Seq<(Seq<char>, Seq<char>)>, url: Seq<char>)
    ensures
        -1 <= first_url_index(flat, url) < flat.len(),
        first_url_index(flat, url) >= 0 ==> flat[first_url_index(flat, url)].1 == url,
        forall|k: int|
            0 <= k < flat.len() && (first_url_index(flat, url) == -1 || k < first_url_index(
                flat,
                url,
            )) ==> #[trigger] flat[k].1 != url,
    decreases flat.len(),
{
    if flat.len() > 0 {
        lemma_first_url_index(flat.drop_last(), url);
        assert forall|k: int|
            0 <= k < flat.len() && (first_url_index(flat, url) == -1 || k < first_url_index(
                flat,
                url,
            )) implies #[trigger] flat[k].1 != url by {
            if k < flat.len() - 1 {
                assert(flat[k] == flat.drop_last()[k]);
            }
        }
    }
}

/// The (prev, next) (text, url) entries around `url` in a flat page
/// order.
pub open spec fn neighbors_in(flat: Seq<(Seq<char>, Seq<char>)>, url: Seq<char>) -> (
    Option<(Seq<char>, Seq<char>)>,
    Option<(Seq<char>, Seq<char>)>,
) {
    let i = first_url_index(flat, url);
    if i < 0 {
        (None, None)
    } else {
        (
            if i > 0 {
                Some(flat[i - 1])
            } else {
                None
            },
            if i + 1 < flat.len() {
                Some(flat[i + 1])
            } else {
                None
            },
        )
    }
}

pub open spec fn opt_pair(o: Option<(String, String)>) -> Option<(Seq<char>, Seq<char>)> {
    match o {
        Some(p) => Some((p.0@, p.1@)),
        None => None,
    }
}

pub open spec fn opt_text(o: Option<String>) -> Option<Seq<char>> {
    match o {
        Some(s) => Some(s@),
        None => None,
    }
}

/// The base a config item's links resolve against: its own, else the
/// inherited one.
pub open spec fn effective_base(item: SidebarItem, base: Seq<char>) -> Seq<char> {
    match item.base {
        Some(b) => b@,
        None => base,
    }
}

/// `node` is config `item` resolved under `base`: same text and
/// collapse state, the link resolved against the effective base, and
/// each child resolved the same way under that base.
pub open spec fn resolves_to(node: SidebarNode, item: SidebarItem, base: Seq<char>, pages: Seq<Page>) -> bool
    decreases item,
{
    let eb = effective_base(item, base);
    &&& node.text@ == item.text@
    &&& node.collapsed == item.collapsed
    &&& opt_text(node.url) == match item.link {
        Some(l) => Some(spec_resolve_link(l@, eb, pages)),
        None => None::<Seq<char>>,
    }
    &&& node.children.len() == item.items.len()
    &&& forall|i: int|
        0 <= i < item.items.len() ==> resolves_to(
            #[trigger] node.children[i],
            item.items[i],
            eb,
            pages,
        )
}

/// Every node resolves the config item at its index.
pub open spec fn all_resolve(nodes: Seq<SidebarNode>, items: Seq<SidebarItem>, base: Seq<char>, pages: Seq<Page>) -> bool {
    &&& nodes.len() == items.len()
    &&& forall|i: int| 0 <= i < items.len() ==> resolves_to(#[trigger] nodes[i], items[i], base, pages)
}

/// Resolve explicit config items: each link joins its nearest `base`
/// (an item's own base overrides the inherited one), then internal links
/// are canonicalized against the known pages.
fn resolve_items(items: &Vec<SidebarItem>, base: &str, content: &Content) -> (r: Vec<SidebarNode>)
    ensures
        all_resolve(r@, items@, base@, content.pages@),
    decreases items,
{
    let mut out: Vec<SidebarNode> = Vec::new();
    let mut i: usize = 0;
    while i < items.len()
        invariant
            i <= items.len(),
            out.len() == i,
            forall|k: int| 0 <= k < i ==> resolves_to(#[trigger] out@[k], items@[k], base@, content.pages@),
        decreases items.len() - i,
    {
        let item = &items[i];
        let eb: &str = match &item.base {
            Some(b) => b.as_str(),
            None => base,
        };
        assert(eb@ == effective_base(*item, base@));
        let url = match &item.link {
            Some(l) => Some(resolve_link(l.as_str(), eb, content)),
            None => None,
        };
        proof {
            assert(decreases_to!(items => items@[ix(i)]));
        }
        let children = resolve_items(&item.items, eb, content);
        let node = SidebarNode {
            text: item.text.clone(),
            url,
            children,
            collapsed: item.collapsed,
        };
        proof {
            assert(resolves_to(node, *item, base@, content.pages@));
        }
        out.push(node);
        i += 1;
    }
    out
}

impl SidebarTree {
    /// Does this tree own `url`? (prefix match)
    pub fn covers(&self, url: &str) -> (b: bool)
        ensures
            b == covers(self.prefix@, url@),
    {
        let u = to_chars(url);
        let p = to_chars(self.prefix.as_str());
        eq_v(&u, &p) || eq_str(&p, "/") || starts_with_v(&u, &p)
    }
}

/// All sidebars of a site.
#[derive(Debug)]
pub struct Sidebars {
    pub trees: Vec<SidebarTree>,
}

impl Sidebars {
    /// The index of the tree that owns `url`.
    fn best_index(&self, url: &str) -> (r: Option<usize>)
        ensures
            match r {
                Some(k) => is_best(self.trees@, url@, k as int),
                None => none_covers(self.trees@, url@),
            },
    {
        let mut best: Option<usize> = None;
        let mut best_len: usize = 0;
        let mut i: usize = 0;
        let ghost ts = self.trees@;
        while i < self.trees.len()
            invariant
                i <= self.trees.len(),
                ts == self.trees@,
                match best {
                    Some(k) => {
                        &&& k < i
                        &&& best_len == byte_len(ts[k as int].prefix@)
                        &&& covers(ts[k as int].prefix@, url@)
                        &&& forall|j: int|
                            0 <= j < i && covers(ts[j].prefix@, url@) ==> byte_len(
                                #[trigger] ts[j].prefix@,
                            ) <= best_len
                        &&& forall|j: int|
                            k < j < i && covers(ts[j].prefix@, url@) ==> byte_len(
                                #[trigger] ts[j].prefix@,
                            ) < best_len
                    },
                    None => forall|j: int| 0 <= j < i ==> !covers(#[trigger] ts[j].prefix@, url@),
                },
            decreases self.trees.len() - i,
        {
            let t = &self.trees[i];
            if t.covers(url) {
                let len = t.prefix.as_str().len();
                let take = match best {
                    None => true,
                    Some(_) => len >= best_len,
                };
                if take {
                    best = Some(i);
                    best_len = len;
                }
            }
            i += 1;
        }
        best
    }

    /// The sidebar for a page URL: the longest covering prefix wins, the
    /// last of equals.
    pub fn for_url(&self, url: &str) -> (r: Option<&SidebarTree>)
        ensures
            match r {
                Some(t) => exists|k: int| is_best(self.trees@, url@, k) && *t == self.trees@[k],
                None => none_covers(self.trees@, url@),
            },
    {
        match self.best_index(url) {
            Some(k) => Some(&self.trees[k]),
            None => None,
        }
    }

    /// The linked entries of `tree` in display order: the prev/next
    /// sequence, as (text, url) pairs.
    pub fn flatten(tree: &SidebarTree) -> (r: Vec<(String, String)>)
        ensures
            r.deep_view() == flat_nodes(tree.items@),
    {
        let mut flat: Vec<(String, String)> = Vec::new();
        walk_nodes(&tree.items, &mut flat);
        assert(flat.deep_view() =~= flat_nodes(tree.items@));
        flat
    }

    /// (prev, next) sidebar entries of a page, as (text, url) pairs, in
    /// its sidebar's flat order.
    pub fn neighbors(&self, url: &str) -> (r: (Option<(String, String)>, Option<(String, String)>))
        ensures
            none_covers(self.trees@, url@) ==> r.0 is None && r.1 is None,
            forall|k: int|
                is_best(self.trees@, url@, k) ==> (opt_pair(r.0), opt_pair(r.1)) == neighbors_in(
                    flat_nodes(#[trigger] self.trees@[k].items@),
                    url@,
                ),
    {
        let k = match self.best_index(url) {
            Some(k) => k,
            None => {
                return (None, None);
            },
        };
        proof {
            assert forall|j: int| is_best(self.trees@, url@, j) implies j == k by {
                if j < k {
                    assert(byte_len(self.trees@[ix(k)].prefix@) < byte_len(self.trees@[j].prefix@));
                } else if j > k {
                    assert(byte_len(self.trees@[j].prefix@) < byte_len(self.trees@[ix(k)].prefix@));
                }
            }
        }
        let flat = Self::flatten(&self.trees[k]);
        neighbors_of(&flat, url)
    }
}

/// (prev, next) URLs around `url` in a flat page order.
fn neighbors_of(flat: &Vec<(String, String)>, url: &str) -> (r: (Option<(String, String)>, Option<(String, String)>))
    ensures
        (opt_pair(r.0), opt_pair(r.1)) == neighbors_in(flat.deep_view(), url@),
{
    let ghost fv = flat.deep_view();
    let target = to_chars(url);
    let mut i: usize = 0;
    proof {
        lemma_first_url_index(fv, url@);
    }
    while i < flat.len()
        invariant
            i <= flat.len(),
            fv == flat.deep_view(),
            fv.len() == flat.len(),
            target@ == url@,
            forall|m: int| 0 <= m < i ==> #[trigger] fv[m].1 != url@,
        decreases flat.len() - i,
    {
        let u = to_chars(flat[i].1.as_str());
        assert(u@ == fv[ix(i)].1);
        if eq_v(&u, &target) {
            proof {
                lemma_first_url_index(fv, url@);
                if first_url_index(fv, url@) != ix(i) {
                    assert(fv[first_url_index(fv, url@)].1 == url@);
                }
            }
            let prev = if i > 0 {
                assert(fv[ix(i) - 1] == (flat@[ix(i) - 1].0@, flat@[ix(i) - 1].1@));
                Some((flat[i - 1].0.clone(), flat[i - 1].1.clone()))
            } else {
                None
            };
            let next = if i + 1 < flat.len() {
                assert(fv[ix(i) + 1] == (flat@[ix(i) + 1].0@, flat@[ix(i) + 1].1@));
                Some((flat[i + 1].0.clone(), flat[i + 1].1.clone()))
            } else {
                None
            };
            return (prev, next);
        }
        i += 1;
    }
    proof {
        lemma_first_url_index(fv, url@);
        if first_url_index(fv, url@) >= 0 {
            assert(fv[first_url_index(fv, url@)].1 == url@);
        }
    }
    (None, None)
}

/// Append the linked entries of `n` and its descendants.
fn walk_node(n: &SidebarNode, out: &mut Vec<(String, String)>)
    ensures
        final(out).deep_view() == old(out).deep_view() + flat_node(*n),
    decreases n, 1int,
{
    let ghost start = out.deep_view();
    proof {
        reveal_strlit("/");
    }
    match &n.url {
        Some(u) => {
            if starts_with_str(&to_chars(u.as_str()), "/") {
                out.push((n.text.clone(), u.clone()));
                assert(out.deep_view() =~= start + seq![(n.text@, u@)]);
            } else {
                assert(out.deep_view() =~= start + Seq::<(Seq<char>, Seq<char>)>::empty());
            }
        },
        None => {},
    }
    let ghost mid = out.deep_view();
    proof {
        assert(decreases_to!(n => n.children));
    }
    walk_nodes(&n.children, out);
    assert(out.deep_view() =~= start + flat_node(*n));
}

/// `walk_node` over siblings.
fn walk_nodes(ns: &Vec<SidebarNode>, out: &mut Vec<(String, String)>)
    ensures
        final(out).deep_view() == old(out).deep_view() + flat_nodes(ns@),
    decreases ns, 0int,
{
    let ghost start = out.deep_view();
    let mut i: usize = 0;
    assert(ns@.take(0) =~= Seq::<SidebarNode>::empty());
    while i < ns.len()
        invariant
            i <= ns.len(),
            out.deep_view() == start + flat_nodes(ns@.take(ix(i))),
        decreases ns.len() - i,
    {
        proof {
            assert(decreases_to!(ns => ns@[ix(i)]));
            assert(ns@.take(ix(i) + 1).drop_last() =~= ns@.take(ix(i)));
        }
        walk_node(&ns[i], out);
        i += 1;
    }
    assert(ns@.take(ix(i)) =~= ns@);
}


// ── the derived sidebar ────────────────────────────────────────────────

/// A page as (rel, title, url).
pub open spec fn entry_of(p: Page) -> (Seq<char>, Seq<char>, Seq<char>) {
    (p.rel@, p.title@, p.url@)
}

/// The pages under top-level section `t`, in content order.
pub open spec fn section_entries(pages: Seq<Page>, t: Seq<char>) -> Seq<(Seq<char>, Seq<char>, Seq<char>)>
    decreases pages.len(),
{
    if pages.len() == 0 {
        Seq::empty()
    } else {
        let prev = section_entries(pages.drop_last(), t);
        if spec_top_segment(pages.last().url@) == Some(t) {
            prev.push(entry_of(pages.last()))
        } else {
            prev
        }
    }
}

/// Entries are ordered by their source path.
pub open spec fn rel_key() -> spec_fn((Seq<char>, Seq<char>, Seq<char>)) -> Seq<char> {
    |e: (Seq<char>, Seq<char>, Seq<char>)| e.0
}

/// The first entry with URL `url`, or -1.
pub open spec fn entry_url_index(es: Seq<(Seq<char>, Seq<char>, Seq<char>)>, url: Seq<char>) -> int
    decreases es.len(),
{
    if es.len() == 0 {
        -1
    } else if entry_url_index(es.drop_last(), url) >= 0 {
        entry_url_index(es.drop_last(), url)
    } else if es.last().2 == url {
        es.len() - 1
    } else {
        -1
    }
}

/// The entries whose URL is not `url`.
pub open spec fn without_url(es: Seq<(Seq<char>, Seq<char>, Seq<char>)>, url: Seq<char>) -> Seq<
    (Seq<char>, Seq<char>, Seq<char>),
>
    decreases es.len(),
{
    if es.len() == 0 {
        Seq::empty()
    } else if es.last().2 == url {
        without_url(es.drop_last(), url)
    } else {
        without_url(es.drop_last(), url).push(es.last())
    }
}

/// A leaf link to the page of entry `e`.
pub open spec fn leaf_of(n: SidebarNode, e: (Seq<char>, Seq<char>, Seq<char>)) -> bool {
    &&& n.text@ == e.1
    &&& opt_text(n.url) == Some(e.2)
    &&& n.children.len() == 0
    &&& n.collapsed is None
}

/// The derived tree of section `t`: one expanded group, titled and
/// linked by the section's index page when it has one, holding a leaf
/// per other page of the section in natural order of source path.
pub open spec fn auto_tree(tree: SidebarTree, t: Seq<char>, pages: Seq<Page>) -> bool {
    let sorted = sort_by_key(section_entries(pages, t), rel_key());
    let root = "/"@ + t + "/"@;
    let i = entry_url_index(sorted, root);
    let leaves = if i >= 0 {
        without_url(sorted, root)
    } else {
        sorted
    };
    &&& tree.prefix@ == root
    &&& tree.items.len() == 1
    &&& tree.items[0].collapsed == Some(false)
    &&& tree.items[0].text@ == (if i >= 0 {
        sorted[i].1
    } else {
        t
    })
    &&& opt_text(tree.items[0].url) == (if i >= 0 {
        Some(root)
    } else {
        None
    })
    &&& tree.items[0].children.len() == leaves.len()
    &&& forall|k: int| 0 <= k < leaves.len() ==> leaf_of(#[trigger] tree.items[0].children[k], leaves[k])
}

/// Some page lives under top-level section `t`.
pub open spec fn has_section(pages: Seq<Page>, t: Seq<char>) -> bool {
    exists|k: int| 0 <= k < pages.len() && spec_top_segment(#[trigger] pages[k].url@) == Some(t)
}

/// The section a derived tree belongs to (its prefix without the
/// slashes).
pub open spec fn tree_key(tree: SidebarTree) -> Seq<char> {
    tree.prefix@.subrange(1, tree.prefix@.len() - 1)
}

/// The derived sidebars: one tree per top-level section of the pages,
/// in section-name order.
pub open spec fn auto_trees_of(trees: Seq<SidebarTree>, pages: Seq<Page>) -> bool {
    &&& forall|i: int|
        0 <= i < trees.len() ==> has_section(pages, tree_key(#[trigger] trees[i])) && auto_tree(
            trees[i],
            tree_key(trees[i]),
            pages,
        )
    &&& forall|i: int, j: int|
        0 <= i < j < trees.len() ==> lex_lt(tree_key(#[trigger] trees[i]), tree_key(#[trigger] trees[j]))
    &&& forall|t: Seq<char>|
        has_section(pages, t) ==> exists|i: int| 0 <= i < trees.len() && tree_key(#[trigger] trees[i]) == t
}

/// Strictly increasing in code point order.
pub open spec fn strictly_sorted(ks: Seq<Seq<char>>) -> bool {
    forall|i: int, j: int| 0 <= i < j < ks.len() ==> lex_lt(#[trigger] ks[i], #[trigger] ks[j])
}

/// Add `t` to a strictly sorted key list unless present.
fn insert_key(keys: &mut Vec<Vec<char>>, t: Vec<char>)
    requires
        strictly_sorted(old(keys).deep_view()),
    ensures
        strictly_sorted(final(keys).deep_view()),
        forall|x: Seq<char>|
            final(keys).deep_view().contains(x) <==> (old(keys).deep_view().contains(x) || x == t@),
{
    let ghost ks = keys.deep_view();
    let mut j: usize = 0;
    while j < keys.len() && lex_lt_v(&keys[j], &t)
        invariant
            j <= keys.len(),
            ks == keys.deep_view(),
            forall|m: int| 0 <= m < j ==> lex_lt(#[trigger] ks[m], t@),
        decreases keys.len() - j,
    {
        assert(ks[ix(j)] == keys@[ix(j)]@);
        j += 1;
    }
    if j < keys.len() && eq_v(&keys[j], &t) {
        assert(ks[ix(j)] == t@);
        return;
    }
    proof {
        if j < keys.len() {
            assert(ks[ix(j)] == keys@[ix(j)]@);
            lemma_lex_total(ks[ix(j)], t@);
            assert(lex_lt(t@, ks[ix(j)]));
            assert forall|m: int| j <= m < ks.len() implies lex_lt(t@, #[trigger] ks[m]) by {
                if m > j {
                    lemma_lex_transitive(t@, ks[ix(j)], ks[m]);
                }
            }
        }
    }
    let ghost tv = t@;
    assert(t.deep_view() =~= tv);
    let ghost ov = keys@;
    keys.insert(j, t);
    let ghost nk = keys.deep_view();
    assert(keys@ == ov.insert(ix(j), t));
    assert forall|m: int| 0 <= m < nk.len() implies #[trigger] nk[m] == ks.insert(ix(j), tv)[m] by {
        if m < j {
            assert(keys@[m] == ov[m]);
        } else if m > j {
            assert(keys@[m] == ov[m - 1]);
        }
    }
    assert(nk =~= ks.insert(ix(j), tv));
    assert forall|a: int, b: int| 0 <= a < b < nk.len() implies lex_lt(#[trigger] nk[a], #[trigger] nk[b]) by {
        if a < j && b < j {
            assert(nk[a] == ks[a] && nk[b] == ks[b]);
        } else if a < j && b == j {
        } else if a < j {
            assert(nk[b] == ks[b - 1]);
            if b - 1 > a {
            }
            assert(lex_lt(ks[a], ks[b - 1]));
        } else if a == j {
            assert(nk[b] == ks[b - 1]);
        } else {
            assert(nk[a] == ks[a - 1] && nk[b] == ks[b - 1]);
        }
    }
    assert forall|x: Seq<char>| nk.contains(x) <==> (ks.contains(x) || x == tv) by {
        if nk.contains(x) {
            let m = choose|m: int| 0 <= m < nk.len() && nk[m] == x;
            if m < j {
                assert(ks[m] == x);
            } else if m > j {
                assert(ks[m - 1] == x);
            }
        }
        if ks.contains(x) {
            let m = choose|m: int| 0 <= m < ks.len() && ks[m] == x;
            if m < j {
                assert(nk[m] == x);
            } else {
                assert(nk[m + 1] == x);
            }
        }
        if x == tv {
            assert(nk[ix(j)] == x);
        }
    }
}


/// The sections of the pages, as a strictly sorted key list.
fn section_keys(pages: &Vec<Page>) -> (keys: Vec<Vec<char>>)
    ensures
        strictly_sorted(keys.deep_view()),
        forall|x: Seq<char>| keys.deep_view().contains(x) <==> has_section(pages@, x),
{
    let mut keys: Vec<Vec<char>> = Vec::new();
    let mut i: usize = 0;
    while i < pages.len()
        invariant
            i <= pages.len(),
            strictly_sorted(keys.deep_view()),
            forall|x: Seq<char>|
                keys.deep_view().contains(x) <==> exists|k: int|
                    0 <= k < i && spec_top_segment(#[trigger] pages@[k].url@) == Some(x),
        decreases pages.len() - i,
    {
        let ghost before = keys.deep_view();
        match top_segment(pages[i].url.as_str()) {
            Some(t) => {
                let tv = to_chars(t.as_str());
                insert_key(&mut keys, tv);
            },
            None => {},
        }
        proof {
            assert forall|x: Seq<char>|
                keys.deep_view().contains(x) <==> exists|k: int|
                    0 <= k < i + 1 && spec_top_segment(#[trigger] pages@[k].url@) == Some(x) by {
                if spec_top_segment(pages@[ix(i)].url@) == Some(x) {
                    assert(keys.deep_view().contains(x));
                }
                if exists|k: int| 0 <= k < i + 1 && spec_top_segment(#[trigger] pages@[k].url@) == Some(x) {
                    let k = choose|k: int| 0 <= k < i + 1 && spec_top_segment(#[trigger] pages@[k].url@) == Some(x);
                    if k < i {
                        assert(before.contains(x));
                    }
                }
            }
        }
        i += 1;
    }
    keys
}

pub proof fn lemma_entry_url_index(es: Seq<(Seq<char>, Seq<char>, Seq<char>)>, url: Seq<char>)
    ensures
        -1 <= entry_url_index(es, url) < es.len(),
        entry_url_index(es, url) >= 0 ==> es[entry_url_index(es, url)].2 == url,
        forall|k: int|
            0 <= k < es.len() && (entry_url_index(es, url) == -1 || k < entry_url_index(es, url))
                ==> #[trigger] es[k].2 != url,
    decreases es.len(),
{
    if es.len() > 0 {
        lemma_entry_url_index(es.drop_last(), url);
        assert forall|k: int|
            0 <= k < es.len() && (entry_url_index(es, url) == -1 || k < entry_url_index(es, url))
                implies #[trigger] es[k].2 != url by {
            if k < es.len() - 1 {
                assert(es[k] == es.drop_last()[k]);
            }
        }
    }
}

/// Entries stably sorted by the natural order of their source paths.
fn sort_entries(es: Vec<(String, String, String)>) -> (r: Vec<(String, String, String)>)
    ensures
        r.deep_view() == sort_by_key(es.deep_view(), rel_key()),
{
    let ghost all = es.deep_view();
    let mut src = es;
    let total: usize = src.len();
    let mut out: Vec<(String, String, String)> = Vec::new();
    let mut k: usize = 0;
    assert(all.take(0) =~= Seq::<(Seq<char>, Seq<char>, Seq<char>)>::empty());
    assert(src.deep_view() =~= all.skip(0));
    while src.len() > 0
        invariant
            k <= all.len(),
            all.len() == k + src.len(),
            all.len() == total,
            src.deep_view() == all.skip(ix(k)),
            out.deep_view() == sort_by_key(all.take(ix(k)), rel_key()),
        decreases src.len(),
    {
        let ghost sv = src@;
        let ghost sdv = src.deep_view();
        let x = src.remove(0);
        let ghost xd = x.deep_view();
        assert(xd == all[ix(k)]) by {
            assert(sv[0].deep_view() == all.skip(ix(k))[0]);
        }
        let ghost od = out.deep_view();
        let mut j: usize = out.len();
        while j > 0 && is_gt(natural_cmp(out[j - 1].0.as_str(), x.0.as_str()))
            invariant
                j <= out.len(),
                od == out.deep_view(),
                xd == x.deep_view(),
                forall|m: int| j <= m < out.len() ==> natural_order_of(#[trigger] od[m].0, xd.0) == Ordering::Greater,
            decreases j,
        {
            assert(od[ix(j) - 1].0 == out@[ix(j) - 1].0@);
            j -= 1;
        }
        proof {
            let key = rel_key();
            assert forall|m: int| j <= m < od.len() implies natural_order_of(key(#[trigger] od[m]), key(xd))
                == Ordering::Greater by {}
            lemma_insert_by_at(od, xd, key, ix(j));
            assert(all.take(ix(k) + 1).drop_last() =~= all.take(ix(k)));
            assert(all.take(ix(k) + 1).last() == xd);
            assert(src.deep_view() =~= all.skip(ix(k) + 1)) by {
                assert forall|m: int| 0 <= m < src.deep_view().len() implies #[trigger] src.deep_view()[m]
                    == all.skip(ix(k) + 1)[m] by {
                    assert(src@[m] == sv[m + 1]);
                    assert(sdv[m + 1] == sv[m + 1].deep_view());
                    assert(all.skip(ix(k) + 1)[m] == all.skip(ix(k))[m + 1]);
                }
            }
        }
        let ghost ov = out@;
        out.insert(j, x);
        proof {
            assert(out.deep_view() =~= od.take(ix(j)).push(xd) + od.skip(ix(j))) by {
                assert forall|m: int| 0 <= m < out.deep_view().len() implies #[trigger] out.deep_view()[m]
                    == (od.take(ix(j)).push(xd) + od.skip(ix(j)))[m] by {
                    if m < j {
                        assert(out@[m] == ov[m]);
                    } else if m > j {
                        assert(out@[m] == ov[m - 1]);
                    }
                }
            }
        }
        k += 1;
    }
    assert(all.take(ix(k)) =~= all);
    out
}

fn is_gt(o: Ordering) -> (b: bool)
    ensures
        b == (o == Ordering::Greater),
{
    match o {
        Ordering::Greater => true,
        _ => false,
    }
}


/// The pages of section `t` as entries, in content order.
fn collect_section(pages: &Vec<Page>, t: &Vec<char>) -> (es: Vec<(String, String, String)>)
    ensures
        es.deep_view() == section_entries(pages@, t@),
{
    let mut es: Vec<(String, String, String)> = Vec::new();
    let mut i: usize = 0;
    assert(pages@.take(0) =~= Seq::<Page>::empty());
    while i < pages.len()
        invariant
            i <= pages.len(),
            es.deep_view() == section_entries(pages@.take(ix(i)), t@),
        decreases pages.len() - i,
    {
        let p = &pages[i];
        let hit = match top_segment(p.url.as_str()) {
            Some(seg) => {
                let sv = to_chars(seg.as_str());
                eq_v(&sv, t)
            },
            None => false,
        };
        proof {
            assert(pages@.take(ix(i) + 1).drop_last() =~= pages@.take(ix(i)));
            assert(pages@.take(ix(i) + 1).last() == *p);
        }
        if hit {
            let ghost before = es.deep_view();
            es.push((p.rel.clone(), p.title.clone(), p.url.clone()));
            assert(es.deep_view() =~= before.push(entry_of(*p)));
        }
        i += 1;
    }
    assert(pages@.take(ix(i)) =~= pages@);
    es
}

/// The derived tree of section `t`.
fn section_tree(pages: &Vec<Page>, t: &Vec<char>) -> (tree: SidebarTree)
    ensures
        auto_tree(tree, t@, pages@),
        tree_key(tree) == t@,
{
    let sorted = sort_entries(collect_section(pages, t));
    let ghost sd = sorted.deep_view();
    let mut rootv = to_chars("/");
    push_all(&mut rootv, t);
    push_str(&mut rootv, "/");
    let root = from_chars(&rootv);
    let ghost r = "/"@ + t@ + "/"@;
    assert(root@ =~= r);
    proof {
        reveal_strlit("/");
    }
    proof {
        lemma_entry_url_index(sd, r);
    }
    let mut idx: Option<usize> = None;
    let mut i: usize = 0;
    while i < sorted.len()
        invariant
            i <= sorted.len(),
            sd == sorted.deep_view(),
            root@ == r,
            idx is None ==> forall|m: int| 0 <= m < i ==> #[trigger] sd[m].2 != r,
            idx is Some ==> idx->0 == entry_url_index(sd, r),
            -1 <= entry_url_index(sd, r) < sd.len(),
            entry_url_index(sd, r) >= 0 ==> sd[entry_url_index(sd, r)].2 == r,
            forall|k: int|
                0 <= k < sd.len() && (entry_url_index(sd, r) == -1 || k < entry_url_index(sd, r))
                    ==> #[trigger] sd[k].2 != r,
        decreases sorted.len() - i,
    {
        if idx.is_none() && sorted[i].2 == root {
            assert(sd[ix(i)].2 == r);
            idx = Some(i);
        }
        i += 1;
    }
    let ghost leaves = if entry_url_index(sd, r) >= 0 {
        without_url(sd, r)
    } else {
        sd
    };
    let mut children: Vec<SidebarNode> = Vec::new();
    let mut k: usize = 0;
    assert(sd.take(0) =~= Seq::<(Seq<char>, Seq<char>, Seq<char>)>::empty());
    while k < sorted.len()
        invariant
            k <= sorted.len(),
            sd == sorted.deep_view(),
            root@ == r,
            idx is None <==> entry_url_index(sd, r) == -1,
            ({
                let lv = if idx is Some {
                    without_url(sd.take(ix(k)), r)
                } else {
                    sd.take(ix(k))
                };
                &&& children.len() == lv.len()
                &&& forall|m: int| 0 <= m < lv.len() ==> leaf_of(#[trigger] children@[m], lv[m])
            }),
        decreases sorted.len() - k,
    {
        let e = &sorted[k];
        proof {
            assert(sd.take(ix(k) + 1).drop_last() =~= sd.take(ix(k)));
            assert(sd.take(ix(k) + 1).last() == sd[ix(k)]);
            assert(sd[ix(k)] == e.deep_view());
        }
        let skip = idx.is_some() && e.2 == root;
        if !skip {
            let node = SidebarNode {
                text: e.1.clone(),
                url: Some(e.2.clone()),
                children: Vec::new(),
                collapsed: None,
            };
            children.push(node);
        }
        k += 1;
    }
    assert(sd.take(ix(k)) =~= sd);
    let (text, url) = match idx {
        Some(i) => (sorted[i].1.clone(), Some(root.clone())),
        None => (from_chars(t), None),
    };
    let group = SidebarNode { text, url, children, collapsed: Some(false) };
    let tree = SidebarTree { prefix: root, items: vec![group] };
    assert(tree.prefix@.subrange(1, tree.prefix@.len() - 1) =~= t@);
    tree
}

/// The derived sidebars: one tree per top-level content section, in
/// section-name order.
fn auto_trees(content: &Content) -> (r: Vec<SidebarTree>)
    ensures
        auto_trees_of(r@, content.pages@),
{
    let keys = section_keys(&content.pages);
    let ghost kd = keys.deep_view();
    let mut trees: Vec<SidebarTree> = Vec::new();
    let mut i: usize = 0;
    while i < keys.len()
        invariant
            i <= keys.len(),
            kd == keys.deep_view(),
            strictly_sorted(kd),
            forall|x: Seq<char>| kd.contains(x) <==> has_section(content.pages@, x),
            trees.len() == i,
            forall|m: int| 0 <= m < i ==> tree_key(#[trigger] trees@[m]) == kd[m] && auto_tree(
                trees@[m],
                kd[m],
                content.pages@,
            ),
        decreases keys.len() - i,
    {
        let tree = section_tree(&content.pages, &keys[i]);
        assert(kd[ix(i)] == keys@[ix(i)]@);
        trees.push(tree);
        i += 1;
    }
    proof {
        let ts = trees@;
        assert forall|m: int| 0 <= m < ts.len() implies has_section(content.pages@, tree_key(#[trigger] ts[m]))
            && auto_tree(ts[m], tree_key(ts[m]), content.pages@) by {
            assert(kd.contains(kd[m]));
        }
        assert forall|t: Seq<char>| has_section(content.pages@, t) implies exists|m: int|
            0 <= m < ts.len() && tree_key(#[trigger] ts[m]) == t by {
            assert(kd.contains(t));
            let m = choose|m: int| 0 <= m < kd.len() && kd[m] == t;
            assert(tree_key(ts[m]) == t);
        }
    }
    trees
}


/// The base a keyed section's links resolve against.
pub open spec fn section_base(sec: SidebarSection) -> Seq<char> {
    match sec.base {
        Some(b) => b@,
        None => Seq::empty(),
    }
}

/// The sidebars a site configuration yields over its pages.
pub open spec fn built_from(trees: Seq<SidebarTree>, config: Sidebar, pages: Seq<Page>) -> bool {
    match config {
        Sidebar::Auto => auto_trees_of(trees, pages),
        Sidebar::Items(items) => {
            &&& trees.len() == 1
            &&& trees[0].prefix@ == "/"@
            &&& all_resolve(trees[0].items@, items@, Seq::empty(), pages)
        },
        Sidebar::Sections(secs) => {
            &&& trees.len() == secs.len()
            &&& forall|i: int|
                0 <= i < secs.len() ==> (#[trigger] trees[i]).prefix@ == spec_ensure_slashed(secs[i].0@)
                    && all_resolve(trees[i].items@, secs[i].1.items@, section_base(secs[i].1), pages)
        },
    }
}

impl Sidebars {
    /// The site's sidebars from its configuration and loaded content.
    pub fn build(config: &SiteConfig, content: &Content) -> (r: Sidebars)
        ensures
            built_from(r.trees@, config.sidebar, content.pages@),
    {
        proof {
            reveal_strlit("");
            assert(""@ =~= Seq::<char>::empty());
        }
        match &config.sidebar {
            Sidebar::Auto => Sidebars { trees: auto_trees(content) },
            Sidebar::Items(items) => {
                let nodes = resolve_items(items, "", content);
                let tree = SidebarTree { prefix: String::from_str("/"), items: nodes };
                Sidebars { trees: vec![tree] }
            },
            Sidebar::Sections(secs) => {
                let mut trees: Vec<SidebarTree> = Vec::new();
                let mut i: usize = 0;
                while i < secs.len()
                    invariant
                        i <= secs.len(),
                        trees.len() == i,
                        forall|m: int|
                            0 <= m < i ==> (#[trigger] trees@[m]).prefix@ == spec_ensure_slashed(
                                secs@[m].0@,
                            ) && all_resolve(
                                trees@[m].items@,
                                secs@[m].1.items@,
                                section_base(secs@[m].1),
                                content.pages@,
                            ),
                    decreases secs.len() - i,
                {
                    proof {
                        reveal_strlit("");
                        assert(""@ =~= Seq::<char>::empty());
                    }
                    let (key, sec) = &secs[i];
                    let base: &str = match &sec.base {
                        Some(b) => b.as_str(),
                        None => "",
                    };
                    assert(base@ == section_base(*sec));
                    let items = resolve_items(&sec.items, base, content);
                    trees.push(SidebarTree { prefix: ensure_slashed(key.as_str()), items });
                    i += 1;
                }
                Sidebars { trees }
            },
        }
    }
}


/// `dot_fold` over segments held in a `Vec`.
pub fn dot_fold_v(segs: &Vec<Vec<char>>) -> (r: Vec<Vec<char>>)
    ensures
        r.deep_view() == dot_fold(segs.deep_view()),
{
    let ghost sd = segs.deep_view();
    let mut acc: Vec<Vec<char>> = Vec::new();
    let mut i: usize = 0;
    proof {
        reveal_strlit(".");
        reveal_strlit("..");
    }
    assert(sd.take(0) =~= Seq::<Seq<char>>::empty());
    assert(acc.deep_view() =~= Seq::<Seq<char>>::empty());
    while i < segs.len()
        invariant
            i <= segs.len(),
            sd == segs.deep_view(),
            acc.deep_view() == dot_fold(sd.take(ix(i))),
        decreases segs.len() - i,
    {
        let seg = &segs[i];
        assert(sd[ix(i)] == seg@);
        assert(sd.take(ix(i) + 1).drop_last() =~= sd.take(ix(i)));
        assert(sd.take(ix(i) + 1).last() == seg@);
        let ghost before = acc.deep_view();
        if seg.len() == 0 || eq_str(seg, ".") {
        } else if eq_str(seg, "..") {
            if acc.len() > 0 {
                acc.pop();
                assert(acc.deep_view() =~= before.drop_last());
            }
        } else {
            let c = seg.clone();
            assert(c.deep_view() =~= seg@);
            acc.push(c);
            assert(acc.deep_view() =~= before.push(seg@));
        }
        i += 1;
    }
    assert(sd.take(ix(i)) =~= sd);
    acc
}


// ── laws ───────────────────────────────────────────────────────────────

/// A single-array sidebar applies site-wide: its one tree owns every
/// page URL.
pub proof fn law_single_array_owns_every_url(
    trees: Seq<SidebarTree>,
    items: Vec<SidebarItem>,
    pages: Seq<Page>,
    url: Seq<char>,
)
    requires
        built_from(trees, Sidebar::Items(items), pages),
    ensures
        is_best(trees, url, 0),
{
}

/// The derived sidebars never own the home page: every derived tree
/// belongs to a named section.
pub proof fn law_home_page_has_no_derived_sidebar(trees: Seq<SidebarTree>, pages: Seq<Page>)
    requires
        auto_trees_of(trees, pages),
    ensures
        none_covers(trees, "/"@),
{
    reveal_strlit("/");
    assert forall|j: int| 0 <= j < trees.len() implies !covers(#[trigger] trees[j].prefix@, "/"@) by {
        let t = tree_key(trees[j]);
        assert(has_section(pages, t) && auto_tree(trees[j], t, pages));
        let k = choose|k: int| 0 <= k < pages.len() && spec_top_segment(#[trigger] pages[k].url@) == Some(t);
        assert(t.len() > 0);
        assert(trees[j].prefix@.len() == t.len() + 2);
    }
}

} // verus!
