//! Home-page logic: where hero action links point, and the features
//! grid's column classes.

use vstd::prelude::*;

use crate::markdown::highlight::split_char_v;
use crate::render::{spec_site_url, Site};
use crate::sidebar::{join_push_sep, join_with, split_on};
use crate::content::{page_index, Content, Page};
use crate::sidebar::{before_hash, before_hash_v};
use crate::text::{ends_with, eq_str, ix, push_all, push_str, slice_of, starts_with, starts_with_str, to_chars, from_chars};

verus! {

broadcast use vstd::string::group_string_axioms;

/// `.`/`..` resolution over the segments of a site-root-relative link:
/// empty and `.` segments vanish, `..` drops the previous kept segment.
pub open spec fn action_segments(ps: Seq<Seq<char>>) -> Seq<Seq<char>>
    decreases ps.len(),
{
    if ps.len() == 0 {
        Seq::empty()
    } else {
        let acc = action_segments(ps.drop_last());
        let p = ps.last();
        if p.len() == 0 || p == "."@ {
            acc
        } else if p == ".."@ {
            if acc.len() > 0 {
                acc.drop_last()
            } else {
                acc
            }
        } else {
            acc.push(p)
        }
    }
}

/// A segment without its `.md` extension.
pub open spec fn without_md(s: Seq<char>) -> Seq<char> {
    if ends_with(s, ".md"@) {
        s.take(s.len() - 3)
    } else {
        s
    }
}

/// A relative action link resolved from the site root: `.`/`..`
/// resolved, `.md` dropped from every segment.
pub open spec fn spec_relative_action_path(link: Seq<char>) -> Seq<char> {
    let segs = action_segments(split_on(link, '/'));
    "/"@ + join_with(Seq::new(segs.len(), |i: int| without_md(segs[i])), "/"@)
}

/// A site path as the page it names: with `.md` dropped and the anchor
/// kept, the page's canonical URL (exactly, else with a trailing slash);
/// the path unchanged when it names no page.
pub open spec fn spec_page_target(p: Seq<char>, pages: Seq<Page>) -> Seq<char> {
    let m = without_md(p);
    let s = before_hash(m);
    let rest = m.skip(s.len() as int);
    let sl = if ends_with(s, "/"@) {
        s
    } else {
        s + "/"@
    };
    if page_index(pages, s) >= 0 {
        s + rest
    } else if page_index(pages, sl) >= 0 {
        sl + rest
    } else {
        p
    }
}

/// A hero action's target: absolute URLs as they are (under the base);
/// site paths and `./guide/x.md`-style links (resolved from the site
/// root) become the canonical URL of the page they name, under the base.
pub open spec fn spec_resolve_action_link(base: Seq<char>, pages: Seq<Page>, link: Seq<char>) -> Seq<char> {
    if starts_with(link, "http://"@) || starts_with(link, "https://"@) {
        spec_site_url(base, link)
    } else if starts_with(link, "/"@) {
        spec_site_url(base, spec_page_target(link, pages))
    } else {
        spec_site_url(base, spec_page_target(spec_relative_action_path(link), pages))
    }
}

fn page_target(p: &Vec<char>, content: &Content) -> (r: Vec<char>)
    ensures
        r@ == spec_page_target(p@, content.pages@),
{
    proof {
        reveal_strlit(".md");
        reveal_strlit("/");
    }
    let m = if crate::text::ends_with_str(p, ".md") {
        slice_of(p, 0, p.len() - 3)
    } else {
        slice_of(p, 0, p.len())
    };
    assert(m@ =~= without_md(p@));
    let s = before_hash_v(&m);
    let ghost rest = m@.skip(s@.len() as int);
    let tail = slice_of(&m, s.len(), m.len());
    assert(tail@ =~= rest);
    if content.get(from_chars(&s).as_str()).is_some() {
        let mut r = s.clone();
        push_all(&mut r, &tail);
        return r;
    }
    let mut sl = s.clone();
    if !crate::text::ends_with_str(&s, "/") {
        push_str(&mut sl, "/");
    }
    if content.get(from_chars(&sl).as_str()).is_some() {
        let mut r = sl;
        push_all(&mut r, &tail);
        return r;
    }
    slice_of(p, 0, p.len())
}

pub fn resolve_action_link(site: &Site, link: &str) -> (r: String)
    ensures
        r@ == spec_resolve_action_link(site.config.base@, site.content.pages@, link@),
{
    let lv = to_chars(link);
    if starts_with_str(&lv, "http://") || starts_with_str(&lv, "https://") {
        return site.url(link);
    }
    let p = if starts_with_str(&lv, "/") {
        lv
    } else {
        relative_action_path(&lv)
    };
    let t = page_target(&p, &site.content);
    site.url(from_chars(&t).as_str())
}

fn relative_action_path(lv: &Vec<char>) -> (r: Vec<char>)
    ensures
        r@ == spec_relative_action_path(lv@),
{
    let ps = split_char_v(lv, '/');
    let ghost pv = ps.deep_view();
    let mut acc: Vec<Vec<char>> = Vec::new();
    let mut i: usize = 0;
    assert(pv.take(0) =~= Seq::<Seq<char>>::empty());
    while i < ps.len()
        invariant
            i <= ps.len(),
            pv == ps.deep_view(),
            acc.deep_view() == action_segments(pv.take(ix(i))),
        decreases ps.len() - i,
    {
        let p = &ps[i];
        assert(pv[ix(i)] == p@);
        assert(pv.take(ix(i) + 1).drop_last() =~= pv.take(ix(i)));
        proof {
            reveal_strlit(".");
            reveal_strlit("..");
        }
        let ghost before = acc.deep_view();
        if p.len() == 0 || eq_str(p, ".") {
        } else if eq_str(p, "..") {
            if acc.len() > 0 {
                acc.pop();
                assert(acc.deep_view() =~= before.drop_last());
            }
        } else {
            acc.push(p.clone());
            assert(acc.deep_view() =~= before.push(p@));
        }
        i += 1;
    }
    assert(pv.take(ix(i)) =~= pv);
    let ghost segs = acc.deep_view();
    let mut clean: Vec<Vec<char>> = Vec::new();
    let mut k: usize = 0;
    while k < acc.len()
        invariant
            k <= acc.len(),
            segs == acc.deep_view(),
            clean.deep_view() =~= Seq::new(segs.len(), |j: int| without_md(segs[j])).take(ix(k)),
        decreases acc.len() - k,
    {
        let s = &acc[k];
        assert(segs[ix(k)] == s@);
        proof {
            reveal_strlit(".md");
        }
        let c = if crate::text::ends_with_str(s, ".md") {
            slice_of(s, 0, s.len() - 3)
        } else {
            s.clone()
        };
        assert(c@ =~= without_md(s@));
        let ghost before = clean.deep_view();
        let ghost cv = c@;
        assert(c.deep_view() =~= cv);
        clean.push(c);
        assert(clean.deep_view() =~= before.push(cv));
        k += 1;
    }
    let mut path = to_chars("/");
    join_push_sep(&mut path, &clean, "/");
    assert(Seq::new(segs.len(), |j: int| without_md(segs[j])).take(ix(k)) =~= Seq::new(
        segs.len(),
        |j: int| without_md(segs[j]),
    ));
    path
}

/// Column classes of the features grid by the number of features.
pub open spec fn spec_feature_grid_class(n: nat) -> Seq<char> {
    if n == 2 {
        " sm:w-1/2"@
    } else if n == 3 {
        " md:w-1/3"@
    } else if n > 3 && n % 3 == 0 {
        " sm:w-1/2 md:w-1/3"@
    } else if n > 3 {
        " sm:w-1/2 lg:w-1/4"@
    } else {
        ""@
    }
}

pub fn feature_grid_class(n: usize) -> (r: &'static str)
    ensures
        r@ == spec_feature_grid_class(n as nat),
{
    if n == 2 {
        " sm:w-1/2"
    } else if n == 3 {
        " md:w-1/3"
    } else if n > 3 && n % 3 == 0 {
        " sm:w-1/2 md:w-1/3"
    } else if n > 3 {
        " sm:w-1/2 lg:w-1/4"
    } else {
        ""
    }
}

} // verus!
