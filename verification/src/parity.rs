//! Upstream parity fingerprints: the landmark structure of a built page
//! (nav, sidebar, outline, doc footer, hero, features, …) as plain
//! values, and the text normalizations landmarks are compared under.
//! Fingerprints compare landmarks (text, hrefs, order, presence), never
//! class names or markup.

use vstd::prelude::*;

use crate::markdown::highlight::{dec, push_dec, ws_tokens, ws_tokens_v};
use crate::markdown::preprocess::{last_index_of, last_index_of_v, lemma_last_index_of};
use crate::sidebar::{join_push_sep, join_with};
use crate::content::trim_suffix_all;
use crate::theme_assets::{ascending, insert_lex, insert_sorted};
use crate::text::{
    ends_with, ends_with_str, eq_str, eq_v, starts_with_v, from_chars, ix, push_all, push_str, slice_of, split_lines,
    split_lines_v, starts_with, starts_with_str, to_chars, trim, trim_v,
};

verus! {

broadcast use vstd::string::group_string_axioms;

#[derive(Debug, Clone, PartialEq)]
pub struct Link {
    pub text: String,
    pub href: String,
}

#[derive(Debug, Clone, PartialEq)]
pub struct NavTitle {
    pub text: String,
    pub href: String,
    pub logo_src: Option<String>,
}

/// One top-level navbar entry: a plain link or a flyout group.
#[derive(Debug, Clone, PartialEq)]
pub enum NavItem {
    Link { text: String, href: String },
    Group { text: String, items: Vec<Link> },
}

#[derive(Debug, Clone, PartialEq)]
pub struct SidebarEntry {
    /// "group" (section header, no link) or "link".
    pub kind: String,
    pub text: String,
    pub href: Option<String>,
    /// Nesting depth: number of enclosing `ul` elements.
    pub depth: Option<usize>,
}

#[derive(Debug, Clone, PartialEq)]
pub struct PagerItem {
    /// "Previous page" / "Next page".
    pub desc: String,
    pub title: String,
    pub href: String,
}

#[derive(Debug, Clone, PartialEq)]
pub struct Hero {
    /// The `h1.heading` spans in order.
    pub lines: Vec<String>,
    pub tagline: Option<String>,
    pub actions: Vec<Link>,
}

#[derive(Debug, Clone, PartialEq)]
pub struct Feature {
    pub title: String,
    pub details: String,
}

#[derive(Debug, Clone, PartialEq)]
pub struct H1 {
    pub text: String,
    pub id: Option<String>,
}

#[derive(Debug, Clone, PartialEq)]
pub struct PageFingerprint {
    pub title: Option<String>,
    pub h1: Option<H1>,
    pub nav_title: Option<NavTitle>,
    pub nav_items: Vec<NavItem>,
    pub sidebar: Vec<SidebarEntry>,
    pub outline_title: Option<String>,
    /// `None`: no outline in the source HTML; `Some(items)`: present
    /// (possibly empty).
    pub outline_items: Option<Vec<Link>>,
    pub pager: Vec<PagerItem>,
    pub edit_link: Option<String>,
    /// The date of the last-updated timestamp (presence-only in checks).
    pub last_updated: Option<String>,
    /// Paragraph texts of the page footer.
    pub site_footer: Option<Vec<String>>,
    pub hero: Option<Hero>,
    pub features: Option<Vec<Feature>>,
    pub has_search: bool,
    pub has_main: bool,
    /// Counts of block-level elements inside `<main>`, by tag, in tag
    /// order; `None` without a `<main>`.
    pub block_counts: Option<Vec<(String, usize)>>,
}

/// Whether differences are checked against a pinned upstream (`Check`)
/// or reported between two snapshots (`Diff`).
#[derive(Debug, Clone, Copy, PartialEq, Eq)]
pub enum Mode {
    Check,
    Diff,
}

// ── normalization ──────────────────────────────────────────────────────

/// `s` without zero-width spaces.
pub open spec fn drop_zwsp(s: Seq<char>) -> Seq<char>
    decreases s.len(),
{
    if s.len() == 0 {
        s
    } else if s.last() == '\u{200b}' {
        drop_zwsp(s.drop_last())
    } else {
        drop_zwsp(s.drop_last()).push(s.last())
    }
}

/// Zero-width spaces dropped, whitespace runs collapsed to one space,
/// ends trimmed.
pub open spec fn spec_norm_text(s: Seq<char>) -> Seq<char> {
    join_with(ws_tokens(drop_zwsp(s)), " "@)
}

/// Collapse whitespace and drop zero-width spaces.
pub fn norm_text(s: &str) -> (r: String)
    ensures
        r@ == spec_norm_text(s@),
{
    let v = to_chars(s);
    let mut c: Vec<char> = Vec::new();
    let mut i: usize = 0;
    assert(v@.take(0) =~= Seq::<char>::empty());
    while i < v.len()
        invariant
            i <= v.len(),
            c@ == drop_zwsp(v@.take(ix(i))),
        decreases v.len() - i,
    {
        assert(v@.take(ix(i) + 1).drop_last() =~= v@.take(ix(i)));
        if v[i] != '\u{200b}' {
            c.push(v[i]);
        }
        i += 1;
    }
    assert(v@.take(ix(i)) =~= v@);
    let toks = ws_tokens_v(&c);
    let mut out: Vec<char> = Vec::new();
    join_push_sep(&mut out, &toks, " ");
    assert(out@ =~= spec_norm_text(s@));
    from_chars(&out)
}

/// An href for comparison: trimmed, a leading `./` dropped, trailing
/// slashes dropped (a lone `/` stays).
pub open spec fn spec_norm_href(h: Seq<char>) -> Seq<char> {
    let t0 = trim(h);
    let t = if starts_with(t0, "./"@) {
        t0.skip(2)
    } else {
        t0
    };
    if t.len() > 1 {
        trim_suffix_all(t, "/"@)
    } else {
        t
    }
}

fn trim_slashes_end(s: Vec<char>) -> (r: Vec<char>)
    ensures
        r@ == trim_suffix_all(s@, "/"@),
    decreases s.len(),
{
    proof {
        reveal_strlit("/");
        assert("/"@ =~= seq!['/']);
    }
    if s.len() > 0 && s[s.len() - 1] == '/' {
        let cut = slice_of(&s, 0, s.len() - 1);
        assert(cut@ =~= s@.take(s@.len() - 1));
        assert(ends_with(s@, "/"@)) by {
            assert(s@.subrange(s@.len() - 1, s@.len() as int) =~= seq!['/']);
        }
        trim_slashes_end(cut)
    } else {
        proof {
            if s@.len() > 0 && ends_with(s@, "/"@) {
                assert(s@.subrange(s@.len() - 1, s@.len() as int)[0] == s@[s@.len() - 1]);
            }
        }
        s
    }
}

/// Upstream uses clean URLs (`/guide/x`), this site directory URLs
/// (`/guide/x/`): both compare without the trailing slash.
pub fn norm_href(h: &str) -> (r: String)
    ensures
        r@ == spec_norm_href(h@),
{
    let v = to_chars(h);
    let t0 = trim_v(&v);
    let t = if starts_with_str(&t0, "./") {
        proof {
            reveal_strlit("./");
        }
        let x = slice_of(&t0, 2, t0.len());
        assert(x@ =~= t0@.skip(2));
        x
    } else {
        t0
    };
    if t.len() > 1 {
        from_chars(&trim_slashes_end(t))
    } else {
        from_chars(&t)
    }
}

/// A base-relative link (`./guide/x`) resolved against the page URL's
/// directory, then normalized.
pub open spec fn spec_resolve_href(raw: Seq<char>, page_url: Seq<char>) -> Seq<char> {
    let t = trim(raw);
    if starts_with(t, "./"@) {
        let k = last_index_of(page_url, '/');
        let dir = if k <= 0 {
            "/"@
        } else {
            page_url.take(k + 1)
        };
        spec_norm_href(dir + t.skip(2))
    } else {
        spec_norm_href(t)
    }
}

pub fn resolve_href(raw: &str, page_url: &str) -> (r: String)
    ensures
        r@ == spec_resolve_href(raw@, page_url@),
{
    let v = to_chars(raw);
    let t = trim_v(&v);
    if starts_with_str(&t, "./") {
        proof {
            reveal_strlit("./");
            lemma_last_index_of(page_url@, '/');
        }
        let pu = to_chars(page_url);
        let mut joined = match last_index_of_v(&pu, '/') {
            Some(k) => if k == 0 {
                to_chars("/")
            } else {
                assert(ix(k) < pu@.len());
                let d = slice_of(&pu, 0, k + 1);
                assert(d@ =~= pu@.take(ix(k) + 1));
                d
            },
            None => to_chars("/"),
        };
        let rest = slice_of(&t, 2, t.len());
        assert(rest@ =~= t@.skip(2));
        push_all(&mut joined, &rest);
        let js = from_chars(&joined);
        norm_href(js.as_str())
    } else {
        let ts = from_chars(&t);
        proof {
            crate::text::lemma_trim_twice(v@);
        }
        norm_href(ts.as_str())
    }
}

// ── page lists and file names ──────────────────────────────────────────

/// The slug of a page URL: `home` for the root, else the path without
/// outer slashes, inner slashes as `_`.
pub open spec fn spec_slug_for(url: Seq<char>) -> Seq<char> {
    if url == "/"@ {
        "home"@
    } else {
        trim_slash_both(url).map_values(|c: char| if c == '/' { '_' } else { c })
    }
}

/// `trim_matches('/')`.
pub open spec fn trim_slash_both(s: Seq<char>) -> Seq<char> {
    trim_suffix_all(crate::markdown::preprocess::trim_prefix_all(s, "/"@), "/"@)
}

fn trim_slash_both_v(s: &Vec<char>) -> (r: Vec<char>)
    ensures
        r@ == trim_slash_both(s@),
{
    let mut i: usize = 0;
    proof {
        reveal_strlit("/");
        assert("/"@ =~= seq!['/']);
    }
    assert(s@.skip(0) =~= s@);
    while i < s.len() && s[i] == '/'
        invariant
            i <= s.len(),
            crate::markdown::preprocess::trim_prefix_all(s@, "/"@) == crate::markdown::preprocess::trim_prefix_all(
                s@.skip(ix(i)),
                "/"@,
            ),
        decreases s.len() - i,
    {
        proof {
            reveal_strlit("/");
            assert("/"@ =~= seq!['/']);
        }
        assert(starts_with(s@.skip(ix(i)), "/"@)) by {
            assert(s@.skip(ix(i)).subrange(0, 1) =~= seq!['/']);
        }
        assert(s@.skip(ix(i)).skip(1) =~= s@.skip(ix(i) + 1));
        i += 1;
    }
    let rest = slice_of(s, i, s.len());
    assert(rest@ =~= s@.skip(ix(i)));
    proof {
        if rest@.len() > 0 && starts_with(rest@, "/"@) {
            assert(rest@.subrange(0, 1)[0] == rest@[0]);
        }
    }
    trim_slashes_end(rest)
}

/// The snapshot file slug of a page URL.
pub fn slug_for(url: &str) -> (r: String)
    ensures
        r@ == spec_slug_for(url@),
{
    let v = to_chars(url);
    if eq_str(&v, "/") {
        return String::from_str("home");
    }
    let t = trim_slash_both_v(&v);
    let mut out: Vec<char> = Vec::new();
    let mut i: usize = 0;
    while i < t.len()
        invariant
            i <= t.len(),
            out@ == t@.take(ix(i)).map_values(|c: char| if c == '/' { '_' } else { c }),
        decreases t.len() - i,
    {
        out.push(if t[i] == '/' { '_' } else { t[i] });
        assert(t@.take(ix(i) + 1).map_values(|c: char| if c == '/' { '_' } else { c }) =~= t@.take(
            ix(i),
        ).map_values(|c: char| if c == '/' { '_' } else { c }).push(if t@[ix(i)] == '/' { '_' } else { t@[ix(i)] }));
        i += 1;
    }
    assert(t@.take(ix(i)) =~= t@);
    from_chars(&out)
}

/// `dir` joined with a relative path the way a path component joins.
pub open spec fn spec_path_join(dir: Seq<char>, rel: Seq<char>) -> Seq<char> {
    if dir.len() == 0 {
        rel
    } else if ends_with(dir, "/"@) {
        dir + rel
    } else {
        dir + "/"@ + rel
    }
}

/// The built file of a page URL under a site directory.
pub open spec fn spec_site_file_for(site_dir: Seq<char>, url: Seq<char>) -> Seq<char> {
    if url == "/"@ {
        spec_path_join(site_dir, "index.html"@)
    } else {
        spec_path_join(site_dir, trim_slash_both(url) + "/index.html"@)
    }
}

pub fn path_join_v(dir: &str, rel: &Vec<char>) -> (r: String)
    ensures
        r@ == spec_path_join(dir@, rel@),
{
    let d = to_chars(dir);
    if d.len() == 0 {
        return from_chars(rel);
    }
    let mut out = d.clone();
    if !ends_with_str(&d, "/") {
        push_str(&mut out, "/");
    }
    push_all(&mut out, rel);
    from_chars(&out)
}

pub fn site_file_for(site_dir: &str, url: &str) -> (r: String)
    ensures
        r@ == spec_site_file_for(site_dir@, url@),
{
    let v = to_chars(url);
    if eq_str(&v, "/") {
        return path_join_v(site_dir, &to_chars("index.html"));
    }
    let mut t = trim_slash_both_v(&v);
    push_str(&mut t, "/index.html");
    path_join_v(site_dir, &t)
}

/// The page list of a pages file: trimmed lines, without blank lines
/// and `#` comments.
pub open spec fn pages_of(lines: Seq<Seq<char>>) -> Seq<Seq<char>>
    decreases lines.len(),
{
    if lines.len() == 0 {
        Seq::empty()
    } else {
        let prev = pages_of(lines.drop_last());
        let t = trim(lines.last());
        if t.len() == 0 || starts_with(t, "#"@) {
            prev
        } else {
            prev.push(t)
        }
    }
}

pub fn parse_pages(raw: &str) -> (r: Vec<String>)
    ensures
        r.deep_view() == pages_of(split_lines(raw@)),
{
    let v = to_chars(raw);
    let lines = split_lines_v(&v);
    let ghost ls = split_lines(v@);
    let mut out: Vec<String> = Vec::new();
    let mut i: usize = 0;
    assert(ls.take(0) =~= Seq::<Seq<char>>::empty());
    assert(out.deep_view() =~= Seq::<Seq<char>>::empty());
    while i < lines.len()
        invariant
            i <= lines.len(),
            lines.len() == ls.len(),
            ls == split_lines(v@),
            v@ == raw@,
            forall|k: int| 0 <= k < lines.len() ==> (#[trigger] lines@[k])@ == ls[k],
            out.deep_view() == pages_of(ls.take(ix(i))),
        decreases lines.len() - i,
    {
        assert(lines@[ix(i)]@ == ls[ix(i)]);
        assert(ls.take(ix(i) + 1).drop_last() =~= ls.take(ix(i)));
        let t = trim_v(&lines[i]);
        if !(t.len() == 0 || starts_with_str(&t, "#")) {
            let ghost before = out.deep_view();
            out.push(from_chars(&t));
            assert(out.deep_view() =~= before.push(t@));
        }
        i += 1;
    }
    assert(ls.take(ix(i)) =~= ls);
    out
}


// ── landmark comparison ────────────────────────────────────────────────

/// A JSON value as fingerprints carry it: numbers by their text, objects
/// as (key, value) entries in key order.
#[derive(Debug)]
pub enum Json {
    Null,
    Bool(bool),
    Number(String),
    Str(String),
    Array(Vec<Json>),
    Object(Vec<(String, Json)>),
}

/// The mathematical value of a [`Json`].
pub enum JsonV {
    Null,
    Bool(bool),
    Number(Seq<char>),
    Str(Seq<char>),
    Array(Seq<JsonV>),
    Object(Seq<(Seq<char>, JsonV)>),
}

pub open spec fn json_view(j: Json) -> JsonV
    decreases j,
{
    match j {
        Json::Null => JsonV::Null,
        Json::Bool(b) => JsonV::Bool(b),
        Json::Number(n) => JsonV::Number(n@),
        Json::Str(s) => JsonV::Str(s@),
        Json::Array(v) => JsonV::Array(
            Seq::new(
                v@.len(),
                |i: int|
                    {
                        if 0 <= i < v@.len() {
                            proof {
                                assert(decreases_to!(v => v@));
                                assert(decreases_to!(v@ => v@[i]));
                            }
                            json_view(v@[i])
                        } else {
                            JsonV::Null
                        }
                    },
            ),
        ),
        Json::Object(v) => JsonV::Object(
            Seq::new(
                v@.len(),
                |i: int|
                    {
                        if 0 <= i < v@.len() {
                            proof {
                                assert(decreases_to!(v => v@));
                                assert(decreases_to!(v@ => v@[i]));
                            }
                            (v@[i].0@, json_view(v@[i].1))
                        } else {
                            (Seq::empty(), JsonV::Null)
                        }
                    },
            ),
        ),
    }
}

/// The items of an array value.
pub open spec fn arr_of(j: JsonV) -> Seq<JsonV> {
    match j {
        JsonV::Array(s) => s,
        _ => Seq::empty(),
    }
}

/// The entries of an object value.
pub open spec fn obj_of(j: JsonV) -> Seq<(Seq<char>, JsonV)> {
    match j {
        JsonV::Object(s) => s,
        _ => Seq::empty(),
    }
}

impl View for Json {
    type V = JsonV;

    open spec fn view(&self) -> JsonV {
        json_view(*self)
    }
}

/// A copy with the same value.
pub fn json_copy(j: &Json) -> (r: Json)
    ensures
        r@ == j@,
    decreases j,
{
        match j {
            Json::Null => Json::Null,
            Json::Bool(b) => Json::Bool(*b),
            Json::Number(n) => Json::Number(n.clone()),
            Json::Str(t) => Json::Str(t.clone()),
            Json::Array(v) => {
                let mut out: Vec<Json> = Vec::new();
                let mut i: usize = 0;
                while i < v.len()
                    invariant
                        i <= v.len(),
                        out.len() == i,
                        *j == Json::Array(*v),
                        forall|k: int| 0 <= k < i ==> (#[trigger] out@[k])@ == v@[k]@,
                    decreases v.len() - i,
                {
                    proof {
                        assert(decreases_to!(v => v@));
                        assert(decreases_to!(v@ => v@[ix(i)]));
                        assert(decreases_to!(*j => (*j)->Array_0));
                    }
                    let c = json_copy(&v[i]);
                    out.push(c);
                    i += 1;
                }
                let r = Json::Array(out);
                proof {
                    let (a, b) = (arr_of(r@), arr_of(j@));
                    assert(a =~= b);
                }
                r
            },
            Json::Object(v) => {
                let mut out: Vec<(String, Json)> = Vec::new();
                let mut i: usize = 0;
                while i < v.len()
                    invariant
                        i <= v.len(),
                        out.len() == i,
                        *j == Json::Object(*v),
                        forall|k: int|
                            0 <= k < i ==> (#[trigger] out@[k]).0@ == v@[k].0@ && out@[k].1@
                                == v@[k].1@,
                    decreases v.len() - i,
                {
                    proof {
                        assert(decreases_to!(v => v@));
                        assert(decreases_to!(v@ => v@[ix(i)]));
                        assert(decreases_to!(v@[ix(i)] => v@[ix(i)].1));
                        assert(decreases_to!(*j => (*j)->Object_0));
                    }
                    let c = json_copy(&v[i].1);
                    out.push((v[i].0.clone(), c));
                    i += 1;
                }
                let r = Json::Object(out);
                proof {
                    let (a, b) = (obj_of(r@), obj_of(j@));
                    assert(a =~= b);
                }
                r
            },
        }
}

/// Whether two values are equal.
pub fn json_eq(a: &Json, b: &Json) -> (r: bool)
    ensures
        r == (a@ == b@),
    decreases a,
{
    match a {
        Json::Null => matches!(b, Json::Null),
        Json::Bool(x) => match b {
            Json::Bool(y) => *x == *y,
            _ => false,
        },
        Json::Number(x) => match b {
            Json::Number(y) => *x == *y,
            _ => false,
        },
        Json::Str(x) => match b {
            Json::Str(y) => *x == *y,
            _ => false,
        },
        Json::Array(x) => match b {
            Json::Array(y) => {
                let ghost (sa, sb) = (a@, b@);
                if x.len() != y.len() {
                    proof {
                        let (p, q) = (arr_of(sa), arr_of(sb));
                        assert(p.len() != q.len());
                    }
                    return false;
                }
                let mut i: usize = 0;
                while i < x.len()
                    invariant
                        i <= x.len(),
                        x.len() == y.len(),
                        sa == a@,
                        sb == b@,
                        *a == Json::Array(*x),
                        *b == Json::Array(*y),
                        forall|k: int| 0 <= k < i ==> (#[trigger] x@[k])@ == y@[k]@,
                    decreases x.len() - i,
                {
                    proof {
                        assert(decreases_to!(x => x@));
                        assert(decreases_to!(x@ => x@[ix(i)]));
                    }
                    if !json_eq(&x[i], &y[i]) {
                        proof {
                            let (p, q) = (arr_of(sa), arr_of(sb));
                            assert(p[ix(i)] != q[ix(i)]);
                        }
                        return false;
                    }
                    i += 1;
                }
                proof {
                    let (p, q) = (arr_of(sa), arr_of(sb));
                    assert(p =~= q);
                }
                true
            },
            _ => false,
        },
        Json::Object(x) => match b {
            Json::Object(y) => {
                let ghost (sa, sb) = (a@, b@);
                if x.len() != y.len() {
                    proof {
                        let (p, q) = (obj_of(sa), obj_of(sb));
                        assert(p.len() != q.len());
                    }
                    return false;
                }
                let mut i: usize = 0;
                while i < x.len()
                    invariant
                        i <= x.len(),
                        x.len() == y.len(),
                        sa == a@,
                        sb == b@,
                        *a == Json::Object(*x),
                        *b == Json::Object(*y),
                        forall|k: int|
                            0 <= k < i ==> (#[trigger] x@[k]).0@ == y@[k].0@ && x@[k].1@ == y@[k].1@,
                    decreases x.len() - i,
                {
                    proof {
                        assert(decreases_to!(x => x@));
                        assert(decreases_to!(x@ => x@[ix(i)]));
                        assert(decreases_to!(x@[ix(i)] => x@[ix(i)].1));
                    }
                    if x[i].0 != y[i].0 || !json_eq(&x[i].1, &y[i].1) {
                        proof {
                            let (p, q) = (obj_of(sa), obj_of(sb));
                            assert(p[ix(i)] != q[ix(i)]);
                        }
                        return false;
                    }
                    i += 1;
                }
                proof {
                    let (p, q) = (obj_of(sa), obj_of(sb));
                    assert(p =~= q);
                }
                true
            },
            _ => false,
        },
    }
}

/// The items of an array, each by its value.
pub open spec fn items_view(v: Seq<Json>) -> Seq<JsonV> {
    Seq::new(v.len(), |i: int| v[i]@)
}

/// The entries of an object, each by its key's and value's values.
pub open spec fn entries_view(v: Seq<(String, Json)>) -> Seq<(Seq<char>, JsonV)> {
    Seq::new(v.len(), |i: int| (v[i].0@, v[i].1@))
}

pub proof fn lemma_array_view(v: Vec<Json>)
    ensures
        Json::Array(v)@ == JsonV::Array(items_view(v@)),
{
    assert(arr_of(Json::Array(v)@) =~= items_view(v@));
}

pub proof fn lemma_object_view(v: Vec<(String, Json)>)
    ensures
        Json::Object(v)@ == JsonV::Object(entries_view(v@)),
{
    assert(obj_of(Json::Object(v)@) =~= entries_view(v@));
}

/// One divergence: the page, the landmark's path, and both values.
#[derive(Debug)]
pub struct Mismatch {
    pub page: String,
    pub path: String,
    pub upstream: Json,
    pub ours: Json,
}

/// The value of a [`Mismatch`].
pub struct MismatchView {
    pub page: Seq<char>,
    pub path: Seq<char>,
    pub upstream: JsonV,
    pub ours: JsonV,
}

impl View for Mismatch {
    type V = MismatchView;

    open spec fn view(&self) -> MismatchView {
        MismatchView { page: self.page@, path: self.path@, upstream: self.upstream@, ours: self.ours@ }
    }
}

pub open spec fn mviews(s: Seq<Mismatch>) -> Seq<MismatchView> {
    s.map_values(|m: Mismatch| m@)
}

pub open spec fn mm(page: Seq<char>, path: Seq<char>, up: JsonV, ours: JsonV) -> MismatchView {
    MismatchView { page, path, upstream: up, ours }
}

/// `path.key` (just `key` at the top).
pub open spec fn child_path(path: Seq<char>, k: Seq<char>) -> Seq<char> {
    if path.len() == 0 {
        k
    } else {
        path + "."@ + k
    }
}

/// `path[i]`.
pub open spec fn item_path(path: Seq<char>, i: nat) -> Seq<char> {
    path + "["@ + dec(i) + "]"@
}

/// The value of the first entry from `i` on with key `k`.
pub open spec fn entry_from(es: Seq<(Seq<char>, JsonV)>, k: Seq<char>, i: int) -> Option<JsonV>
    decreases es.len() - i,
{
    if i < 0 || i >= es.len() {
        None
    } else if es[i].0 == k {
        Some(es[i].1)
    } else {
        entry_from(es, k, i + 1)
    }
}

/// The value under key `k`.
pub open spec fn lookup(es: Seq<(Seq<char>, JsonV)>, k: Seq<char>) -> Option<JsonV> {
    entry_from(es, k, 0)
}

/// Landmarks whose values are site-local by nature (timestamps):
/// compared for presence only.
pub open spec fn is_presence_only(path: Seq<char>) -> bool {
    path == "last_updated"@ || ends_with(path, ".last_updated"@) || ends_with(path, ".last_updated[]"@)
}

/// Two values where at least one is not a container (or their kinds
/// differ): a divergence unless equal; `Check` skips values upstream
/// cannot see (null) and presence-only landmarks present on both sides.
pub open spec fn leaf_walk(page: Seq<char>, path: Seq<char>, up: JsonV, ours: JsonV, mode: Mode) -> Seq<
    MismatchView,
> {
    if up == ours {
        Seq::empty()
    } else if mode == Mode::Check && (up is Null || (is_presence_only(path) && !(ours is Null))) {
        Seq::empty()
    } else {
        seq![mm(page, path, up, ours)]
    }
}

/// The divergences between two landmark trees, in document order:
/// objects key by key (in upstream's key order; `Diff` also reports keys
/// only one side has), equal-length arrays item by item, arrays of other
/// lengths as one `path[]` report with both sizes (`Check` skips an
/// empty upstream outline, which upstream hydrates client-side).
pub open spec fn spec_walk(page: Seq<char>, path: Seq<char>, up: JsonV, ours: JsonV, mode: Mode) -> Seq<
    MismatchView,
>
    decreases up, 1int, 0int,
{
    match up {
        JsonV::Object(ue) => match ours {
            JsonV::Object(oe) => {
                proof {
                    assert(decreases_to!(up => up->Object_0));
                }
                walk_entries(page, path, ue, oe, mode, 0) + if mode == Mode::Diff {
                    added_entries(page, path, ue, oe, 0)
                } else {
                    Seq::empty()
                }
            },
            _ => leaf_walk(page, path, up, ours, mode),
        },
        JsonV::Array(us) => match ours {
            JsonV::Array(os) => {
                if mode == Mode::Check && us.len() == 0 && path == "outline_items"@ {
                    Seq::empty()
                } else if us.len() != os.len() {
                    seq![
                        mm(
                            page,
                            path + "[]"@,
                            JsonV::Str(dec(us.len()) + " items"@),
                            JsonV::Str(dec(os.len()) + " items"@),
                        ),
                    ]
                } else {
                    proof {
                        assert(decreases_to!(up => up->Array_0));
                    }
                    walk_items(page, path, us, os, mode, 0)
                }
            },
            _ => leaf_walk(page, path, up, ours, mode),
        },
        _ => leaf_walk(page, path, up, ours, mode),
    }
}

/// Items `i..` of two equal-length arrays.
pub open spec fn walk_items(
    page: Seq<char>,
    path: Seq<char>,
    us: Seq<JsonV>,
    os: Seq<JsonV>,
    mode: Mode,
    i: int,
) -> Seq<MismatchView>
    decreases us, 0int, us.len() - i,
{
    if i < 0 || i >= us.len() || i >= os.len() {
        Seq::empty()
    } else {
        proof {
            assert(decreases_to!(us => us[i]));
        }
        spec_walk(page, item_path(path, i as nat), us[i], os[i], mode) + walk_items(
            page,
            path,
            us,
            os,
            mode,
            i + 1,
        )
    }
}

/// Upstream entries `i..` of two objects.
pub open spec fn walk_entries(
    page: Seq<char>,
    path: Seq<char>,
    ue: Seq<(Seq<char>, JsonV)>,
    oe: Seq<(Seq<char>, JsonV)>,
    mode: Mode,
    i: int,
) -> Seq<MismatchView>
    decreases ue, 0int, ue.len() - i,
{
    if i < 0 || i >= ue.len() {
        Seq::empty()
    } else {
        proof {
            assert(decreases_to!(ue => ue[i]));
            assert(decreases_to!(ue[i] => ue[i].1));
        }
        let child = child_path(path, ue[i].0);
        let here = match lookup(oe, ue[i].0) {
            Some(ov) => spec_walk(page, child, ue[i].1, ov, mode),
            None => if mode == Mode::Diff {
                seq![mm(page, child + " (removed upstream)"@, ue[i].1, JsonV::Null)]
            } else {
                Seq::empty()
            },
        };
        here + walk_entries(page, path, ue, oe, mode, i + 1)
    }
}

/// Entries `j..` of our object whose keys upstream lacks.
pub open spec fn added_entries(
    page: Seq<char>,
    path: Seq<char>,
    ue: Seq<(Seq<char>, JsonV)>,
    oe: Seq<(Seq<char>, JsonV)>,
    j: int,
) -> Seq<MismatchView>
    decreases oe.len() - j,
{
    if j < 0 || j >= oe.len() {
        Seq::empty()
    } else {
        let here = if lookup(ue, oe[j].0) is None {
            seq![mm(page, child_path(path, oe[j].0) + " (added by us)"@, JsonV::Null, oe[j].1)]
        } else {
            Seq::empty()
        };
        here + added_entries(page, path, ue, oe, j + 1)
    }
}

proof fn lemma_push_view(s: Seq<Mismatch>, m: Mismatch)
    ensures
        mviews(s.push(m)) == mviews(s).push(m@),
{
    assert(mviews(s.push(m)) =~= mviews(s).push(m@));
}

/// The index of the first entry with key `k`.
fn find_entry(es: &Vec<(String, Json)>, k: &String) -> (r: Option<usize>)
    ensures
        match r {
            Some(j) => j < es.len() && lookup(entries_view(es@), k@) == Some(es@[ix(j)].1@),
            None => lookup(entries_view(es@), k@) is None,
        },
{
    let ghost ev = entries_view(es@);
    let mut i: usize = 0;
    while i < es.len()
        invariant
            i <= es.len(),
            ev == entries_view(es@),
            lookup(ev, k@) == entry_from(ev, k@, ix(i)),
        decreases es.len() - i,
    {
        if es[i].0 == *k {
            return Some(i);
        }
        i += 1;
    }
    None
}

fn child_path_v(path: &Vec<char>, k: &String) -> (r: Vec<char>)
    ensures
        r@ == child_path(path@, k@),
{
    if path.len() == 0 {
        to_chars(k.as_str())
    } else {
        let mut r = path.clone();
        r.push('.');
        push_str(&mut r, k.as_str());
        proof {
            reveal_strlit(".");
            assert(r@ =~= path@ + "."@ + k@);
        }
        r
    }
}

fn with_suffix(p: &Vec<char>, suffix: &str) -> (r: String)
    ensures
        r@ == p@ + suffix@,
{
    let mut v = p.clone();
    push_str(&mut v, suffix);
    from_chars(&v)
}

fn count_label(n: usize) -> (r: Json)
    ensures
        r@ == JsonV::Str(dec(n as nat) + " items"@),
{
    let mut v: Vec<char> = Vec::new();
    push_dec(&mut v, n);
    push_str(&mut v, " items");
    proof {
        assert(v@ =~= dec(n as nat) + " items"@);
    }
    Json::Str(from_chars(&v))
}

pub fn is_presence_only_v(path: &Vec<char>) -> (b: bool)
    ensures
        b == is_presence_only(path@),
{
    eq_str(path, "last_updated") || ends_with_str(path, ".last_updated") || ends_with_str(
        path,
        ".last_updated[]",
    )
}

fn leaf(page: &str, path: &Vec<char>, up: &Json, ours: &Json, mode: Mode, out: &mut Vec<Mismatch>)
    ensures
        mviews(final(out)@) == mviews(old(out)@) + leaf_walk(page@, path@, up@, ours@, mode),
{
    if json_eq(up, ours) {
        assert(mviews(out@) + Seq::<MismatchView>::empty() =~= mviews(out@));
        return;
    }
    match mode {
        Mode::Check => {
            if matches!(up, Json::Null) || (is_presence_only_v(path) && !matches!(ours, Json::Null)) {
                assert(mviews(out@) + Seq::<MismatchView>::empty() =~= mviews(out@));
                return;
            }
        },
        Mode::Diff => {},
    }
    let m = Mismatch {
        page: String::from_str(page),
        path: from_chars(path),
        upstream: json_copy(up),
        ours: json_copy(ours),
    };
    let ghost before = out@;
    out.push(m);
    proof {
        lemma_push_view(before, m);
        assert(mviews(before).push(m@) =~= mviews(before) + seq![mm(page@, path@, up@, ours@)]);
    }
}

fn walk(page: &str, path: &Vec<char>, up: &Json, ours: &Json, mode: Mode, out: &mut Vec<Mismatch>)
    ensures
        mviews(final(out)@) == mviews(old(out)@) + spec_walk(page@, path@, up@, ours@, mode),
    decreases up,
{
    match up {
        Json::Object(uo) => {
            if let Json::Object(oo) = ours {
                proof {
                    lemma_object_view(*uo);
                    lemma_object_view(*oo);
                }
                walk_object(page, path, up, uo, oo, mode, out);
                return;
            }
        },
        Json::Array(ua) => {
            if let Json::Array(oa) = ours {
                proof {
                    lemma_array_view(*ua);
                    lemma_array_view(*oa);
                }
                let skip = match mode {
                    Mode::Check => ua.len() == 0 && eq_str(path, "outline_items"),
                    Mode::Diff => false,
                };
                if skip {
                    assert(mviews(out@) + Seq::<MismatchView>::empty() =~= mviews(out@));
                    return;
                }
                if ua.len() != oa.len() {
                    let m = Mismatch {
                        page: String::from_str(page),
                        path: with_suffix(path, "[]"),
                        upstream: count_label(ua.len()),
                        ours: count_label(oa.len()),
                    };
                    let ghost before = out@;
                    out.push(m);
                    proof {
                        lemma_push_view(before, m);
                    }
                    return;
                }
                let ghost us = items_view(ua@);
                let ghost os = items_view(oa@);
                let ghost start = mviews(out@);
                let mut i: usize = 0;
                while i < ua.len()
                    invariant
                        i <= ua.len(),
                        ua.len() == oa.len(),
                        *up == Json::Array(*ua),
                        us == items_view(ua@),
                        os == items_view(oa@),
                        start + walk_items(page@, path@, us, os, mode, 0) == mviews(out@)
                            + walk_items(page@, path@, us, os, mode, ix(i)),
                    decreases ua.len() - i,
                {
                    let child = item_path_v(path, i);
                    proof {
                        assert(decreases_to!(*up => (*up)->Array_0));
                        assert(decreases_to!(ua => ua@));
                        assert(decreases_to!(ua@ => ua@[ix(i)]));
                    }
                    let ghost before = mviews(out@);
                    walk(page, &child, &ua[i], &oa[i], mode, out);
                    proof {
                        let here = spec_walk(page@, item_path(path@, i as nat), us[ix(i)], os[ix(i)], mode);
                        let rest = walk_items(page@, path@, us, os, mode, ix(i) + 1);
                        assert(walk_items(page@, path@, us, os, mode, ix(i)) == here + rest);
                        assert(before + (here + rest) =~= (before + here) + rest);
                    }
                    i += 1;
                }
                assert(mviews(out@) + Seq::<MismatchView>::empty() =~= mviews(out@));
                return;
            }
        },
        _ => {},
    }
    leaf(page, path, up, ours, mode, out);
}

fn item_path_v(path: &Vec<char>, i: usize) -> (r: Vec<char>)
    ensures
        r@ == item_path(path@, i as nat),
{
    let mut r = path.clone();
    r.push('[');
    push_dec(&mut r, i);
    r.push(']');
    proof {
        reveal_strlit("[");
        reveal_strlit("]");
        assert(r@ =~= path@ + "["@ + dec(i as nat) + "]"@);
    }
    r
}

fn walk_object(
    page: &str,
    path: &Vec<char>,
    up: &Json,
    uo: &Vec<(String, Json)>,
    oo: &Vec<(String, Json)>,
    mode: Mode,
    out: &mut Vec<Mismatch>,
)
    requires
        *up == Json::Object(*uo),
    ensures
        mviews(final(out)@) == mviews(old(out)@) + walk_entries(
            page@,
            path@,
            entries_view(uo@),
            entries_view(oo@),
            mode,
            0,
        ) + if mode == Mode::Diff {
            added_entries(page@, path@, entries_view(uo@), entries_view(oo@), 0)
        } else {
            Seq::empty()
        },
    decreases up, 0int,
{
    let ghost ue = entries_view(uo@);
    let ghost oe = entries_view(oo@);
    let ghost start = mviews(out@);
    let mut i: usize = 0;
    while i < uo.len()
        invariant
            i <= uo.len(),
            *up == Json::Object(*uo),
            ue == entries_view(uo@),
            oe == entries_view(oo@),
            start + walk_entries(page@, path@, ue, oe, mode, 0) == mviews(out@) + walk_entries(
                page@,
                path@,
                ue,
                oe,
                mode,
                ix(i),
            ),
        decreases uo.len() - i,
    {
        let child = child_path_v(path, &uo[i].0);
        let ghost before = mviews(out@);
        assert(ue[ix(i)] == (uo@[ix(i)].0@, uo@[ix(i)].1@));
        match find_entry(oo, &uo[i].0) {
            Some(j) => {
                proof {
                    assert(decreases_to!(*up => (*up)->Object_0));
                    assert(decreases_to!(uo => uo@));
                    assert(decreases_to!(uo@ => uo@[ix(i)]));
                    assert(decreases_to!(uo@[ix(i)] => uo@[ix(i)].1));
                }
                walk(page, &child, &uo[i].1, &oo[j].1, mode, out);
            },
            None => {
                match mode {
                    Mode::Diff => {
                        let m = Mismatch {
                            page: String::from_str(page),
                            path: with_suffix(&child, " (removed upstream)"),
                            upstream: json_copy(&uo[i].1),
                            ours: Json::Null,
                        };
                        let ghost prev = out@;
                        out.push(m);
                        proof {
                            lemma_push_view(prev, m);
                        }
                    },
                    Mode::Check => {
                        assert(mviews(out@) + Seq::<MismatchView>::empty() =~= mviews(out@));
                    },
                }
            },
        }
        proof {
            let rest = walk_entries(page@, path@, ue, oe, mode, ix(i) + 1);
            let here = mviews(out@).skip(before.len() as int);
            assert(mviews(out@) =~= before + here);
            assert(walk_entries(page@, path@, ue, oe, mode, ix(i)) == here + rest);
            assert(before + (here + rest) =~= (before + here) + rest);
        }
        i += 1;
    }
    let ghost mid = mviews(out@);
    assert(mid =~= start + walk_entries(page@, path@, ue, oe, mode, 0));
    match mode {
        Mode::Diff => {
            let mut j: usize = 0;
            while j < oo.len()
                invariant
                    j <= oo.len(),
                    ue == entries_view(uo@),
                    oe == entries_view(oo@),
                    mid + added_entries(page@, path@, ue, oe, 0) == mviews(out@) + added_entries(
                        page@,
                        path@,
                        ue,
                        oe,
                        ix(j),
                    ),
                decreases oo.len() - j,
            {
                let ghost before = mviews(out@);
                assert(oe[ix(j)] == (oo@[ix(j)].0@, oo@[ix(j)].1@));
                if find_entry(uo, &oo[j].0).is_none() {
                    let child = child_path_v(path, &oo[j].0);
                    let m = Mismatch {
                        page: String::from_str(page),
                        path: with_suffix(&child, " (added by us)"),
                        upstream: Json::Null,
                        ours: json_copy(&oo[j].1),
                    };
                    let ghost prev = out@;
                    out.push(m);
                    proof {
                        lemma_push_view(prev, m);
                    }
                }
                proof {
                    let rest = added_entries(page@, path@, ue, oe, ix(j) + 1);
                    let here = mviews(out@).skip(before.len() as int);
                    assert(mviews(out@) =~= before + here);
                    assert(added_entries(page@, path@, ue, oe, ix(j)) == here + rest);
                    assert(before + (here + rest) =~= (before + here) + rest);
                }
                j += 1;
            }
            assert(mviews(out@) + Seq::<MismatchView>::empty() =~= mviews(out@));
        },
        Mode::Check => {
            assert(mid + Seq::<MismatchView>::empty() =~= mid);
        },
    }
}

/// Compare two landmark trees, appending every divergence to `out`.
pub fn compare(page: &str, up: &Json, ours: &Json, mode: Mode, out: &mut Vec<Mismatch>)
    ensures
        mviews(final(out)@) == mviews(old(out)@) + spec_walk(page@, Seq::empty(), up@, ours@, mode),
{
    let path: Vec<char> = Vec::new();
    assert(path@ =~= Seq::<char>::empty());
    walk(page, &path, up, ours, mode, out);
}

/// A known, explained divergence: it covers mismatches on `page` at
/// `path` or below it, optionally only for given upstream / our values.
#[derive(Debug)]
pub struct Delta {
    pub page: String,
    pub path: String,
    pub upstream: Option<Json>,
    pub ours: Option<Json>,
    pub reason: String,
}

/// The list of known divergences.
#[derive(Debug, Default)]
pub struct Deltas {
    pub deltas: Vec<Delta>,
}

/// `d` explains a mismatch at (`page`, `path`) with these values.
pub open spec fn delta_covers(d: Delta, page: Seq<char>, path: Seq<char>, up: JsonV, ours: JsonV) -> bool {
    &&& d.page@ == page
    &&& (path == d.path@ || starts_with(path, d.path@ + "."@) || starts_with(path, d.path@ + "["@))
    &&& match d.upstream {
        Some(w) => w@ == up,
        None => true,
    }
    &&& match d.ours {
        Some(w) => w@ == ours,
        None => true,
    }
}

fn prefix_with(p: &String, c: char) -> (r: Vec<char>)
    ensures
        r@ == p@.push(c),
{
    let mut v = to_chars(p.as_str());
    v.push(c);
    v
}

fn delta_covers_v(d: &Delta, page: &str, path: &Vec<char>, up: &Json, ours: &Json) -> (b: bool)
    ensures
        b == delta_covers(*d, page@, path@, up@, ours@),
{
    if !eq_str(&to_chars(d.page.as_str()), page) {
        return false;
    }
    let dp = to_chars(d.path.as_str());
    let dot = prefix_with(&d.path, '.');
    let bracket = prefix_with(&d.path, '[');
    proof {
        reveal_strlit(".");
        reveal_strlit("[");
        assert(dot@ =~= d.path@ + "."@);
        assert(bracket@ =~= d.path@ + "["@);
    }
    if !(eq_v(path, &dp) || starts_with_v(path, &dot) || starts_with_v(path, &bracket)) {
        return false;
    }
    match &d.upstream {
        Some(w) => {
            if !json_eq(w, up) {
                return false;
            }
        },
        None => {},
    }
    match &d.ours {
        Some(w) => {
            if !json_eq(w, ours) {
                return false;
            }
        },
        None => {},
    }
    true
}

impl Deltas {
    /// Some delta explains the mismatch at (`page`, `path`) with these
    /// values.
    pub fn covers(&self, page: &str, path: &str, up: &Json, ours: &Json) -> (b: bool)
        ensures
            b == exists|i: int|
                0 <= i < self.deltas@.len() && delta_covers(
                    #[trigger] self.deltas@[i],
                    page@,
                    path@,
                    up@,
                    ours@,
                ),
    {
        let pv = to_chars(path);
        let mut i: usize = 0;
        while i < self.deltas.len()
            invariant
                i <= self.deltas.len(),
                pv@ == path@,
                forall|k: int| 0 <= k < i ==> !delta_covers(#[trigger] self.deltas@[k], page@, path@, up@, ours@),
            decreases self.deltas.len() - i,
        {
            if delta_covers_v(&self.deltas[i], page, &pv, up, ours) {
                return true;
            }
            i += 1;
        }
        false
    }
}

/// Object keys are distinct at every level, as in a JSON map.
pub open spec fn distinct_keys(j: JsonV) -> bool
    decreases j,
{
    match j {
        JsonV::Array(s) => forall|i: int|
            0 <= i < s.len() ==> {
                proof {
                    assert(decreases_to!(j => j->Array_0));
                    assert(decreases_to!(s => s[i]));
                }
                distinct_keys(#[trigger] s[i])
            },
        JsonV::Object(e) => {
            &&& forall|a: int, b: int| 0 <= a < b < e.len() ==> (#[trigger] e[a]).0 != (#[trigger] e[b]).0
            &&& forall|i: int|
                0 <= i < e.len() ==> {
                    proof {
                        assert(decreases_to!(j => j->Object_0));
                        assert(decreases_to!(e => e[i]));
                        assert(decreases_to!(e[i] => e[i].1));
                    }
                    distinct_keys(#[trigger] e[i].1)
                }
        },
        _ => true,
    }
}

/// No reported divergence has a null upstream value.
pub open spec fn upstream_visible(s: Seq<MismatchView>) -> bool {
    forall|k: int| 0 <= k < s.len() ==> !(#[trigger] s[k].upstream is Null)
}

proof fn lemma_entry_found(es: Seq<(Seq<char>, JsonV)>, t: int, i: int)
    requires
        0 <= i <= t < es.len(),
        forall|a: int, b: int| 0 <= a < b < es.len() ==> (#[trigger] es[a]).0 != (#[trigger] es[b]).0,
    ensures
        entry_from(es, es[t].0, i) == Some(es[t].1),
    decreases t - i,
{
    if i < t {
        assert(es[i].0 != es[t].0);
        lemma_entry_found(es, t, i + 1);
    }
}

proof fn lemma_added_self_empty(page: Seq<char>, path: Seq<char>, ue: Seq<(Seq<char>, JsonV)>, j: int)
    requires
        0 <= j,
        forall|a: int, b: int| 0 <= a < b < ue.len() ==> (#[trigger] ue[a]).0 != (#[trigger] ue[b]).0,
    ensures
        added_entries(page, path, ue, ue, j) == Seq::<MismatchView>::empty(),
    decreases ue.len() - j,
{
    if j < ue.len() {
        lemma_entry_found(ue, j, 0);
        lemma_added_self_empty(page, path, ue, j + 1);
        assert(Seq::<MismatchView>::empty() + Seq::<MismatchView>::empty() =~= Seq::<MismatchView>::empty());
    }
}

proof fn lemma_items_self_clean(page: Seq<char>, path: Seq<char>, us: Seq<JsonV>, mode: Mode, i: int)
    requires
        0 <= i,
        forall|k: int| 0 <= k < us.len() ==> distinct_keys(#[trigger] us[k]),
    ensures
        walk_items(page, path, us, us, mode, i) == Seq::<MismatchView>::empty(),
    decreases us, 0int, us.len() - i,
{
    if i < us.len() {
        assert(decreases_to!(us => us[i]));
        law_compare_self_is_clean(page, item_path(path, i as nat), us[i], mode);
        lemma_items_self_clean(page, path, us, mode, i + 1);
        assert(Seq::<MismatchView>::empty() + Seq::<MismatchView>::empty() =~= Seq::<MismatchView>::empty());
    }
}

proof fn lemma_entries_self_clean(page: Seq<char>, path: Seq<char>, ue: Seq<(Seq<char>, JsonV)>, mode: Mode, i: int)
    requires
        0 <= i,
        forall|a: int, b: int| 0 <= a < b < ue.len() ==> (#[trigger] ue[a]).0 != (#[trigger] ue[b]).0,
        forall|k: int| 0 <= k < ue.len() ==> distinct_keys(#[trigger] ue[k].1),
    ensures
        walk_entries(page, path, ue, ue, mode, i) == Seq::<MismatchView>::empty(),
    decreases ue, 0int, ue.len() - i,
{
    if i < ue.len() {
        assert(decreases_to!(ue => ue[i]));
        assert(decreases_to!(ue[i] => ue[i].1));
        lemma_entry_found(ue, i, 0);
        law_compare_self_is_clean(page, child_path(path, ue[i].0), ue[i].1, mode);
        lemma_entries_self_clean(page, path, ue, mode, i + 1);
        assert(Seq::<MismatchView>::empty() + Seq::<MismatchView>::empty() =~= Seq::<MismatchView>::empty());
    }
}

/// A landmark tree compared with itself shows no divergence, in either
/// mode.
pub proof fn law_compare_self_is_clean(page: Seq<char>, path: Seq<char>, j: JsonV, mode: Mode)
    requires
        distinct_keys(j),
    ensures
        spec_walk(page, path, j, j, mode) == Seq::<MismatchView>::empty(),
    decreases j, 1int, 0int,
{
    match j {
        JsonV::Object(e) => {
            assert(decreases_to!(j => j->Object_0));
            lemma_entries_self_clean(page, path, e, mode, 0);
            lemma_added_self_empty(page, path, e, 0);
            assert(Seq::<MismatchView>::empty() + Seq::<MismatchView>::empty() =~= Seq::<MismatchView>::empty());
        },
        JsonV::Array(s) => {
            assert(decreases_to!(j => j->Array_0));
            lemma_items_self_clean(page, path, s, mode, 0);
        },
        _ => {},
    }
}

proof fn lemma_visible_concat(a: Seq<MismatchView>, b: Seq<MismatchView>)
    requires
        upstream_visible(a),
        upstream_visible(b),
    ensures
        upstream_visible(a + b),
{
    assert forall|k: int| 0 <= k < (a + b).len() implies !(#[trigger] (a + b)[k].upstream is Null) by {
        if k < a.len() {
            assert((a + b)[k] == a[k]);
        } else {
            assert((a + b)[k] == b[k - a.len()]);
        }
    }
}

proof fn lemma_items_visible(page: Seq<char>, path: Seq<char>, us: Seq<JsonV>, os: Seq<JsonV>, i: int)
    requires
        0 <= i,
    ensures
        upstream_visible(walk_items(page, path, us, os, Mode::Check, i)),
    decreases us, 0int, us.len() - i,
{
    if i < us.len() && i < os.len() {
        assert(decreases_to!(us => us[i]));
        law_check_reports_only_visible_landmarks(page, item_path(path, i as nat), us[i], os[i]);
        lemma_items_visible(page, path, us, os, i + 1);
        lemma_visible_concat(
            spec_walk(page, item_path(path, i as nat), us[i], os[i], Mode::Check),
            walk_items(page, path, us, os, Mode::Check, i + 1),
        );
    }
}

proof fn lemma_entries_visible(
    page: Seq<char>,
    path: Seq<char>,
    ue: Seq<(Seq<char>, JsonV)>,
    oe: Seq<(Seq<char>, JsonV)>,
    i: int,
)
    requires
        0 <= i,
    ensures
        upstream_visible(walk_entries(page, path, ue, oe, Mode::Check, i)),
    decreases ue, 0int, ue.len() - i,
{
    if i < ue.len() {
        assert(decreases_to!(ue => ue[i]));
        assert(decreases_to!(ue[i] => ue[i].1));
        let child = child_path(path, ue[i].0);
        let here = match lookup(oe, ue[i].0) {
            Some(ov) => spec_walk(page, child, ue[i].1, ov, Mode::Check),
            None => Seq::<MismatchView>::empty(),
        };
        match lookup(oe, ue[i].0) {
            Some(ov) => law_check_reports_only_visible_landmarks(page, child, ue[i].1, ov),
            None => {},
        }
        lemma_entries_visible(page, path, ue, oe, i + 1);
        lemma_visible_concat(here, walk_entries(page, path, ue, oe, Mode::Check, i + 1));
    }
}

/// `Check` never reports a landmark upstream does not show: every
/// divergence it finds has a non-null upstream value.
pub proof fn law_check_reports_only_visible_landmarks(page: Seq<char>, path: Seq<char>, up: JsonV, ours: JsonV)
    ensures
        upstream_visible(spec_walk(page, path, up, ours, Mode::Check)),
    decreases up, 1int, 0int,
{
    match up {
        JsonV::Object(ue) => match ours {
            JsonV::Object(oe) => {
                assert(decreases_to!(up => up->Object_0));
                lemma_entries_visible(page, path, ue, oe, 0);
                assert(walk_entries(page, path, ue, oe, Mode::Check, 0) + Seq::<MismatchView>::empty()
                    =~= walk_entries(page, path, ue, oe, Mode::Check, 0));
            },
            _ => {},
        },
        JsonV::Array(us) => match ours {
            JsonV::Array(os) => {
                assert(decreases_to!(up => up->Array_0));
                lemma_items_visible(page, path, us, os, 0);
            },
            _ => {},
        },
        _ => {},
    }
}

/// A snapshot of upstream landmarks: free-form metadata and one
/// fingerprint per page URL, each in key order.
#[derive(Debug, Default)]
pub struct Baseline {
    pub meta: Vec<(String, Json)>,
    pub pages: Vec<(String, Json)>,
}

pub open spec fn keys_of(es: Seq<(String, Json)>) -> Seq<Seq<char>> {
    Seq::new(es.len(), |i: int| es[i].0@)
}

/// `s` with `x` inserted in order, unless already present.
pub open spec fn insert_unique(s: Seq<Seq<char>>, x: Seq<char>) -> Seq<Seq<char>> {
    if s.contains(x) {
        s
    } else {
        insert_lex(s, x)
    }
}

/// The distinct keys of `ks` in ascending order.
pub open spec fn sorted_unique(ks: Seq<Seq<char>>) -> Seq<Seq<char>>
    decreases ks.len(),
{
    if ks.len() == 0 {
        Seq::empty()
    } else {
        insert_unique(sorted_unique(ks.drop_last()), ks.last())
    }
}

/// What changed for one page URL between two snapshots.
pub open spec fn page_diff(url: Seq<char>, before: Option<JsonV>, after: Option<JsonV>) -> Seq<MismatchView> {
    match (before, after) {
        (Some(u), Some(w)) => spec_walk(url, Seq::empty(), u, w, Mode::Diff),
        (Some(_), None) => seq![mm(url, "page"@, JsonV::Str("present"@), JsonV::Str("removed"@))],
        (None, Some(_)) => seq![mm(url, "page"@, JsonV::Str("absent"@), JsonV::Str("added"@))],
        (None, None) => Seq::empty(),
    }
}

/// Page-by-page changes over `urls`, in that order.
pub open spec fn diff_over(
    urls: Seq<Seq<char>>,
    before: Seq<(Seq<char>, JsonV)>,
    after: Seq<(Seq<char>, JsonV)>,
) -> Seq<MismatchView>
    decreases urls.len(),
{
    if urls.len() == 0 {
        Seq::empty()
    } else {
        diff_over(urls.drop_last(), before, after) + page_diff(
            urls.last(),
            lookup(before, urls.last()),
            lookup(after, urls.last()),
        )
    }
}

pub fn insert_unique_v(urls: &mut Vec<String>, x: String)
    requires
        ascending(old(urls).deep_view()),
    ensures
        final(urls).deep_view() == insert_unique(old(urls).deep_view(), x@),
        ascending(final(urls).deep_view()),
{
    let ghost od = urls.deep_view();
    let mut k: usize = 0;
    while k < urls.len()
        invariant
            k <= urls.len(),
            od == urls.deep_view(),
            ascending(od),
            forall|m: int| 0 <= m < k ==> od[m] != x@,
        decreases urls.len() - k,
    {
        assert(od[ix(k)] == urls@[ix(k)]@);
        if urls[k] == x {
            assert(od.contains(x@));
            return;
        }
        k += 1;
    }
    assert(!od.contains(x@));
    insert_sorted(urls, x);
}

fn string_entry(es: &Vec<(String, Json)>, i: usize) -> (r: String)
    requires
        i < es.len(),
    ensures
        r@ == keys_of(es@)[ix(i)],
{
    es[i].0.clone()
}

fn push_page_note(out: &mut Vec<Mismatch>, url: &String, upstream: &str, ours: &str)
    ensures
        mviews(final(out)@) == mviews(old(out)@).push(
            mm(url@, "page"@, JsonV::Str(upstream@), JsonV::Str(ours@)),
        ),
{
    let m = Mismatch {
        page: url.clone(),
        path: String::from_str("page"),
        upstream: Json::Str(String::from_str(upstream)),
        ours: Json::Str(String::from_str(ours)),
    };
    proof {
        reveal_strlit("page");
    }
    let ghost before = out@;
    out.push(m);
    proof {
        lemma_push_view(before, m);
    }
}

/// Everything that changed between two snapshots, page by page in URL
/// order: landmark changes (to and from null included), and pages that
/// appeared or disappeared.
pub fn diff(old: &Baseline, new: &Baseline) -> (r: Vec<Mismatch>)
    ensures
        mviews(r@) == diff_over(
            sorted_unique(keys_of(old.pages@) + keys_of(new.pages@)),
            entries_view(old.pages@),
            entries_view(new.pages@),
        ),
{
    let ghost ks = keys_of(old.pages@) + keys_of(new.pages@);
    let mut urls: Vec<String> = Vec::new();
    let mut i: usize = 0;
    assert(urls.deep_view() =~= sorted_unique(ks.take(0)));
    while i < old.pages.len()
        invariant
            i <= old.pages.len(),
            ks == keys_of(old.pages@) + keys_of(new.pages@),
            urls.deep_view() == sorted_unique(ks.take(ix(i))),
            ascending(urls.deep_view()),
        decreases old.pages.len() - i,
    {
        let key = string_entry(&old.pages, i);
        assert(key@ == ks[ix(i)]);
        assert(ks.take(ix(i) + 1).drop_last() =~= ks.take(ix(i)));
        insert_unique_v(&mut urls, key);
        i += 1;
    }
    let mut j: usize = 0;
    while j < new.pages.len()
        invariant
            j <= new.pages.len(),
            i == old.pages.len(),
            ks == keys_of(old.pages@) + keys_of(new.pages@),
            urls.deep_view() == sorted_unique(ks.take(ix(i) + ix(j))),
            ascending(urls.deep_view()),
        decreases new.pages.len() - j,
    {
        let key = string_entry(&new.pages, j);
        assert(key@ == ks[ix(i) + ix(j)]);
        assert(ks.take(ix(i) + ix(j) + 1).drop_last() =~= ks.take(ix(i) + ix(j)));
        insert_unique_v(&mut urls, key);
        j += 1;
    }
    assert(ks.take(ix(i) + ix(j)) =~= ks);
    let ghost uv = urls.deep_view();
    let ghost oe = entries_view(old.pages@);
    let ghost ne = entries_view(new.pages@);
    let mut out: Vec<Mismatch> = Vec::new();
    let mut k: usize = 0;
    assert(mviews(out@) =~= diff_over(uv.take(0), oe, ne));
    while k < urls.len()
        invariant
            k <= urls.len(),
            uv == urls.deep_view(),
            oe == entries_view(old.pages@),
            ne == entries_view(new.pages@),
            mviews(out@) == diff_over(uv.take(ix(k)), oe, ne),
        decreases urls.len() - k,
    {
        let url = &urls[k];
        assert(uv[ix(k)] == url@);
        assert(uv.take(ix(k) + 1).drop_last() =~= uv.take(ix(k)));
        let ghost before = mviews(out@);
        match (find_entry(&old.pages, url), find_entry(&new.pages, url)) {
            (Some(a), Some(b)) => {
                compare(url.as_str(), &old.pages[a].1, &new.pages[b].1, Mode::Diff, &mut out);
            },
            (Some(_), None) => {
                proof {
                    reveal_strlit("present");
                    reveal_strlit("removed");
                }
                push_page_note(&mut out, url, "present", "removed");
                assert(before.push(mm(url@, "page"@, JsonV::Str("present"@), JsonV::Str("removed"@)))
                    =~= before + seq![mm(url@, "page"@, JsonV::Str("present"@), JsonV::Str("removed"@))]);
            },
            (None, Some(_)) => {
                push_page_note(&mut out, url, "absent", "added");
                assert(before.push(mm(url@, "page"@, JsonV::Str("absent"@), JsonV::Str("added"@)))
                    =~= before + seq![mm(url@, "page"@, JsonV::Str("absent"@), JsonV::Str("added"@))]);
            },
            (None, None) => {
                assert(before + Seq::<MismatchView>::empty() =~= before);
            },
        }
        k += 1;
    }
    assert(uv.take(ix(k)) =~= uv);
    out
}

/// Some delta explains the divergence.
pub open spec fn covered(ds: Seq<Delta>, m: MismatchView) -> bool {
    exists|i: int| 0 <= i < ds.len() && delta_covers(#[trigger] ds[i], m.page, m.path, m.upstream, m.ours)
}

/// Divergences no delta explains.
pub open spec fn unexplained(ds: Seq<Delta>) -> spec_fn(MismatchView) -> bool {
    |m: MismatchView| !covered(ds, m)
}

fn mismatch_copy(m: &Mismatch) -> (r: Mismatch)
    ensures
        r@ == m@,
{
    Mismatch {
        page: m.page.clone(),
        path: m.path.clone(),
        upstream: json_copy(&m.upstream),
        ours: json_copy(&m.ours),
    }
}


proof fn lemma_entry_from_in(es: Seq<(Seq<char>, JsonV)>, k: Seq<char>, i: int)
    requires
        0 <= i,
    ensures
        entry_from(es, k, i) matches Some(v) ==> exists|m: int| i <= m < es.len() && es[m].1 == v,
    decreases es.len() - i,
{
    if i < es.len() && es[i].0 != k {
        lemma_entry_from_in(es, k, i + 1);
    }
}

proof fn lemma_diff_over_self(urls: Seq<Seq<char>>, pages: Seq<(Seq<char>, JsonV)>)
    requires
        forall|m: int| 0 <= m < pages.len() ==> distinct_keys(#[trigger] pages[m].1),
    ensures
        diff_over(urls, pages, pages) == Seq::<MismatchView>::empty(),
    decreases urls.len(),
{
    if urls.len() > 0 {
        lemma_diff_over_self(urls.drop_last(), pages);
        lemma_entry_from_in(pages, urls.last(), 0);
        match lookup(pages, urls.last()) {
            Some(u) => {
                let m = choose|m: int| 0 <= m < pages.len() && pages[m].1 == u;
                assert(distinct_keys(pages[m].1));
                law_compare_self_is_clean(urls.last(), Seq::empty(), u, Mode::Diff);
            },
            None => {},
        }
        assert(Seq::<MismatchView>::empty() + Seq::<MismatchView>::empty() =~= Seq::<MismatchView>::empty());
    }
}

/// A snapshot diffed against itself reports no change (its landmark
/// trees being JSON objects with distinct keys).
pub proof fn law_diff_self_is_empty(b: Baseline)
    requires
        forall|m: int| 0 <= m < b.pages@.len() ==> distinct_keys(#[trigger] b.pages@[m].1@),
    ensures
        diff_over(
            sorted_unique(keys_of(b.pages@) + keys_of(b.pages@)),
            entries_view(b.pages@),
            entries_view(b.pages@),
        ) == Seq::<MismatchView>::empty(),
{
    let es = entries_view(b.pages@);
    assert forall|m: int| 0 <= m < es.len() implies distinct_keys(#[trigger] es[m].1) by {
        assert(es[m].1 == b.pages@[m].1@);
    }
    lemma_diff_over_self(sorted_unique(keys_of(b.pages@) + keys_of(b.pages@)), es);
}

/// One page of a parity check: the divergences between upstream's
/// landmarks and ours that no delta explains.
pub fn check_page(url: &str, up: &Json, ours: &Json, deltas: &Deltas) -> (r: Vec<Mismatch>)
    ensures
        mviews(r@) == spec_walk(url@, Seq::empty(), up@, ours@, Mode::Check).filter(
            unexplained(deltas.deltas@),
        ),
{
    let mut all: Vec<Mismatch> = Vec::new();
    compare(url, up, ours, Mode::Check, &mut all);
    let ghost found = mviews(all@);
    assert(found =~= spec_walk(url@, Seq::empty(), up@, ours@, Mode::Check));
    let mut out: Vec<Mismatch> = Vec::new();
    let mut i: usize = 0;
    proof {
        reveal(Seq::filter);
        assert(found.take(0) =~= Seq::<MismatchView>::empty());
        assert(mviews(out@) =~= found.take(0).filter(unexplained(deltas.deltas@)));
    }
    while i < all.len()
        invariant
            i <= all.len(),
            found == mviews(all@),
            mviews(out@) == found.take(ix(i)).filter(unexplained(deltas.deltas@)),
        decreases all.len() - i,
    {
        let m = &all[i];
        assert(found[ix(i)] == m@);
        proof {
            reveal(Seq::filter);
            assert(found.take(ix(i) + 1).drop_last() =~= found.take(ix(i)));
        }
        if !deltas.covers(m.page.as_str(), m.path.as_str(), &m.upstream, &m.ours) {
            let c = mismatch_copy(m);
            let ghost before = out@;
            out.push(c);
            proof {
                lemma_push_view(before, c);
            }
        }
        i += 1;
    }
    assert(found.take(ix(i)) =~= found);
    out
}

} // verus!
