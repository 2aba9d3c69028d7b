//! The markdown pipeline's text logic: the fence-aware preprocessor, the
//! code-block renderer, syntax themes, relative link resolution and the
//! HTML post-passes (custom heading ids, `[[toc]]`).

pub mod preprocess;
pub mod includes;
pub mod highlight;
pub mod syntax_theme;
pub mod grammars;
pub mod tag_balance;

use vstd::prelude::*;

use crate::content::{page_index, trim_suffix_all, strip_suffix_or_keep, Content, Page};
use crate::markdown::preprocess::{
    escape_seq, find_from, find_from_v, find_seq_from, lemma_find_from, lemma_find_seq_from,
    contains_seq, contains_v, occurs_at, push_escaped,
};
use crate::sidebar::{dot_fold, dot_fold_v, is_external, join_push_sep, join_with, split_on};
use crate::markdown::highlight::split_char_v;
use crate::text::{
    ends_with, ends_with_str, eq_str, from_chars, ix, push_all, push_str, slice_of, starts_with,
    starts_with_str, to_chars,
};

verus! {

broadcast use vstd::string::group_string_axioms;

/// One outline heading with its anchor id.
#[derive(Debug)]
pub struct Heading {
    pub level: u8,
    /// The final anchor id: the `{#custom}` attribute when present,
    /// else the rendered slug.
    pub id: String,
    pub text: String,
    /// The slug id the renderer produced.
    pub rendered_id: String,
}

/// The result of rendering one page's markdown body.
#[derive(Debug)]
pub struct RenderedPage {
    pub html: String,
    pub headings: Vec<Heading>,
    /// The page contains math (needs the MathJax script).
    pub has_math: bool,
}

/// Why a page cannot be rendered.
#[derive(Debug)]
pub enum MarkdownError {
    Theme { name: String },
    Preprocess(crate::markdown::preprocess::PreprocessError),
}

// ── relative links ─────────────────────────────────────────────────────

/// Path segments without empty and `.` ones (what path components keep
/// of a relative path).
pub open spec fn plain_segments(segs: Seq<Seq<char>>) -> Seq<Seq<char>>
    decreases segs.len(),
{
    if segs.len() == 0 {
        Seq::empty()
    } else {
        let prev = plain_segments(segs.drop_last());
        if segs.last().len() == 0 || segs.last() == "."@ {
            prev
        } else {
            prev.push(segs.last())
        }
    }
}

/// The text before the first `#` and the fragment after it.
pub open spec fn split_first_hash(url: Seq<char>) -> (Seq<char>, Option<Seq<char>>) {
    let k = find_from(url, '#', 0);
    if k >= 0 {
        (url.take(k), Some(url.skip(k + 1)))
    } else {
        (url, None)
    }
}

/// The content path a relative link from `page_rel` points at: the
/// page's directory joined with `path`, `..` resolved, `.md` / `.html`
/// dropped, trailing slashes trimmed.
pub open spec fn relative_target(page_rel: Seq<char>, path: Seq<char>) -> Seq<char> {
    let dir = plain_segments(split_on(page_rel, '/'));
    let parent = if dir.len() > 0 {
        dir.drop_last()
    } else {
        dir
    };
    let segs = dot_fold(parent + split_on(path, '/'));
    let t = strip_suffix_or_keep(strip_suffix_or_keep(join_with(segs, "/"@), ".md"@), ".html"@);
    trim_suffix_all(t, "/"@)
}

/// A relative link's canonical page URL (fragment kept), when the
/// target page exists; absolute, external, anchor-only and unknown
/// targets give none.
pub open spec fn spec_resolve_relative(url: Seq<char>, page_rel: Seq<char>, pages: Seq<Page>) -> Option<Seq<char>> {
    if url.len() == 0 || is_external(url) || starts_with(url, "#"@) || starts_with(url, "/"@) {
        None
    } else {
        let (path, frag) = split_first_hash(url);
        let f = match frag {
            Some(x) => "#"@ + x,
            None => Seq::empty(),
        };
        if path.len() == 0 {
            None
        } else {
            let target = relative_target(page_rel, path);
            if target.len() == 0 {
                if page_index(pages, "/"@) >= 0 {
                    Some("/"@ + f)
                } else {
                    None
                }
            } else {
                let a = "/"@ + target + "/"@;
                let b = "/"@ + target;
                if page_index(pages, a) >= 0 {
                    Some(pages[page_index(pages, a)].url@ + f)
                } else if page_index(pages, b) >= 0 {
                    Some(pages[page_index(pages, b)].url@ + f)
                } else {
                    None
                }
            }
        }
    }
}

fn plain_segments_v(segs: &Vec<Vec<char>>) -> (r: Vec<Vec<char>>)
    ensures
        r.deep_view() == plain_segments(segs.deep_view()),
{
    let ghost sd = segs.deep_view();
    let mut out: Vec<Vec<char>> = Vec::new();
    let mut i: usize = 0;
    assert(sd.take(0) =~= Seq::<Seq<char>>::empty());
    assert(out.deep_view() =~= Seq::<Seq<char>>::empty());
    while i < segs.len()
        invariant
            i <= segs.len(),
            sd == segs.deep_view(),
            out.deep_view() == plain_segments(sd.take(ix(i))),
        decreases segs.len() - i,
    {
        let seg = &segs[i];
        assert(sd[ix(i)] == seg@);
        assert(sd.take(ix(i) + 1).drop_last() =~= sd.take(ix(i)));
        assert(sd.take(ix(i) + 1).last() == seg@);
        if !(seg.len() == 0 || eq_str(seg, ".")) {
            let ghost before = out.deep_view();
            let c = seg.clone();
            assert(c.deep_view() =~= seg@);
            out.push(c);
            assert(out.deep_view() =~= before.push(seg@));
        }
        i += 1;
    }
    assert(sd.take(ix(i)) =~= sd);
    out
}

fn strip_suffix_v(s: Vec<char>, p: &str) -> (r: Vec<char>)
    ensures
        r@ == strip_suffix_or_keep(s@, p@),
{
    let pv = to_chars(p);
    if crate::text::ends_with_v(&s, &pv) {
        let r = slice_of(&s, 0, s.len() - pv.len());
        assert(r@ =~= s@.take(s@.len() - p@.len()));
        r
    } else {
        s
    }
}

/// `./x.md`, `../y.md`, `./dir/`, `../` → the canonical URL of the
/// target page when one exists (fragment kept). Absolute, external,
/// anchor-only and unknown targets give `None` (left untouched).
pub fn resolve_relative(url: &str, page_rel: &str, content: &Content) -> (r: Option<String>)
    ensures
        match r {
            Some(u) => spec_resolve_relative(url@, page_rel@, content.pages@) == Some(u@),
            None => spec_resolve_relative(url@, page_rel@, content.pages@) is None,
        },
{
    let u = to_chars(url);
    if u.len() == 0 || starts_with_str(&u, "http://") || starts_with_str(&u, "https://")
        || starts_with_str(&u, "mailto:") || starts_with_str(&u, "#") || starts_with_str(&u, "/") {
        return None;
    }
    proof {
        lemma_find_from(u@, '#', 0);
    }
    let (path, frag) = match find_from_v(&u, '#', 0) {
        Some(k) => {
            let p = slice_of(&u, 0, k);
            let f = slice_of(&u, k + 1, u.len());
            assert(p@ =~= u@.take(ix(k)));
            assert(f@ =~= u@.skip(ix(k) + 1));
            (p, Some(f))
        },
        None => (u.clone(), None),
    };
    if path.len() == 0 {
        return None;
    }
    let mut fv: Vec<char> = Vec::new();
    match &frag {
        Some(x) => {
            push_str(&mut fv, "#");
            push_all(&mut fv, x);
        },
        None => {},
    }
    let ghost f = match frag {
        Some(x) => "#"@ + x@,
        None => Seq::<char>::empty(),
    };
    assert(fv@ =~= f);
    let rel = to_chars(page_rel);
    let rel_segs = split_char_v(&rel, '/');
    let mut dir = plain_segments_v(&rel_segs);
    if dir.len() > 0 {
        let ghost d0 = dir.deep_view();
        dir.pop();
        assert(dir.deep_view() =~= d0.drop_last());
    }
    let path_segs = split_char_v(&path, '/');
    let ghost before = dir.deep_view();
    let mut k: usize = 0;
    while k < path_segs.len()
        invariant
            k <= path_segs.len(),
            dir.deep_view() == before + path_segs.deep_view().take(ix(k)),
        decreases path_segs.len() - k,
    {
        let c = path_segs[k].clone();
        let ghost dv = dir.deep_view();
        assert(c.deep_view() =~= path_segs.deep_view()[ix(k)]);
        dir.push(c);
        assert(dir.deep_view() =~= dv.push(path_segs.deep_view()[ix(k)]));
        assert(path_segs.deep_view().take(ix(k) + 1) =~= path_segs.deep_view().take(ix(k)).push(
            path_segs.deep_view()[ix(k)],
        ));
        k += 1;
    }
    assert(path_segs.deep_view().take(ix(k)) =~= path_segs.deep_view());
    let segs = dot_fold_v(&dir);
    let mut joined: Vec<char> = Vec::new();
    join_push_sep(&mut joined, &segs, "/");
    assert(joined@ =~= join_with(segs.deep_view(), "/"@));
    let a = strip_suffix_v(joined, ".md");
    let b = strip_suffix_v(a, ".html");
    let target = crate::content::trim_suffix_all_v(b, "/");
    assert(target@ == relative_target(page_rel@, path@));
    if target.len() == 0 {
        return match content.get("/") {
            Some(_) => {
                let mut out = to_chars("/");
                push_all(&mut out, &fv);
                Some(from_chars(&out))
            },
            None => None,
        };
    }
    let mut av = to_chars("/");
    push_all(&mut av, &target);
    let bv = av.clone();
    push_str(&mut av, "/");
    let a_s = from_chars(&av);
    let b_s = from_chars(&bv);
    let found = match content.get(a_s.as_str()) {
        Some(p) => Some(p),
        None => content.get(b_s.as_str()),
    };
    match found {
        Some(p) => {
            let mut out = to_chars(p.url.as_str());
            push_all(&mut out, &fv);
            Some(from_chars(&out))
        },
        None => None,
    }
}


// ── HTML post-passes ───────────────────────────────────────────────────

/// `s[i..]` with every non-overlapping occurrence of `pat` (left to
/// right) replaced by `rep` (`str::replace`, non-empty pattern).
pub open spec fn replace_from(s: Seq<char>, pat: Seq<char>, rep: Seq<char>, i: int) -> Seq<char>
    decreases s.len() - i,
{
    if i < 0 || i > s.len() || pat.len() == 0 {
        s.skip(i)
    } else {
        let k = find_seq_from(s, pat, i);
        proof {
            lemma_find_seq_from(s, pat, i);
        }
        if k < 0 {
            s.skip(i)
        } else {
            s.subrange(i, k) + rep + replace_from(s, pat, rep, k + pat.len())
        }
    }
}

pub open spec fn replace_all(s: Seq<char>, pat: Seq<char>, rep: Seq<char>) -> Seq<char> {
    replace_from(s, pat, rep, 0)
}

fn find_seq_from_v(s: &Vec<char>, p: &Vec<char>, from: usize) -> (r: Option<usize>)
    requires
        from <= s.len(),
    ensures
        match r {
            Some(k) => find_seq_from(s@, p@, ix(from)) == k,
            None => find_seq_from(s@, p@, ix(from)) == -1,
        },
{
    let mut k: usize = from;
    while k <= s.len() && p.len() <= s.len() - k
        invariant
            from <= k,
            k <= s.len() + 1,
            find_seq_from(s@, p@, ix(from)) == find_seq_from(s@, p@, ix(k)),
        decreases s.len() + 1 - k,
    {
        let mut j: usize = 0;
        while j < p.len() && s[k + j] == p[j]
            invariant
                j <= p.len(),
                k + p.len() <= s.len(),
                forall|m: int| 0 <= m < j ==> s@[k + m] == p@[m],
            decreases p.len() - j,
        {
            j += 1;
        }
        if j == p.len() {
            assert(s@.subrange(ix(k), k + p@.len()) =~= p@);
            return Some(k);
        }
        assert(!occurs_at(s@, p@, ix(k))) by {
            assert(s@.subrange(ix(k), k + p@.len())[ix(j)] != p@[ix(j)]);
        }
        k += 1;
    }
    None
}

/// `str::replace` with a non-empty pattern.
pub fn replace_all_v(s: &Vec<char>, pat: &str, rep: &str) -> (r: Vec<char>)
    requires
        pat@.len() > 0,
    ensures
        r@ == replace_all(s@, pat@, rep@),
{
    let p = to_chars(pat);
    let mut out: Vec<char> = Vec::new();
    let mut i: usize = 0;
    let ghost goal = replace_all(s@, pat@, rep@);
    assert(out@ =~= Seq::<char>::empty());
    loop
        invariant
            i <= s.len(),
            p@ == pat@,
            p@.len() > 0,
            goal == replace_all(s@, pat@, rep@),
            goal == out@ + replace_from(s@, pat@, rep@, ix(i)),
        decreases s.len() - i,
    {
        proof {
            lemma_find_seq_from(s@, p@, ix(i));
        }
        match find_seq_from_v(s, &p, i) {
            Some(k) => {
                let mid = slice_of(s, i, k);
                push_all(&mut out, &mid);
                push_str(&mut out, rep);
                assert(goal =~= out@ + replace_from(s@, pat@, rep@, k + p@.len()));
                i = k + p.len();
            },
            None => {
                let tail = slice_of(s, i, s.len());
                push_all(&mut out, &tail);
                assert(out@ =~= goal);
                return out;
            },
        }
    }
}

/// The `[[toc]]` placeholder the preprocessor leaves.
pub const TOC_MARK: &'static str = "<!--gd-toc-->";

/// The table-of-contents list state: markup so far and the open levels.
pub type TocState = (Seq<char>, Seq<u8>);

/// One heading into the nested list: deeper opens a sublist, shallower
/// closes lists back down (never the outermost), same level starts a
/// sibling item.
pub open spec fn toc_step(st: TocState, level: u8, id: Seq<char>, text: Seq<char>) -> TocState {
    let (body, stack) = st;
    let link = "<a href=\"#"@ + id + "\">"@ + escape_seq(text) + "</a>"@;
    if stack.len() == 0 {
        (body + "<li>"@ + link, seq![level])
    } else if level > stack.last() {
        (body + "<ul><li>"@ + link, stack.push(level))
    } else {
        let (b2, s2) = toc_close(body, stack, level);
        (b2 + "</li><li>"@ + link, s2.update(s2.len() - 1, level))
    }
}

/// Close sublists while the heading is shallower than the innermost
/// open level, keeping the outermost list.
pub open spec fn toc_close(body: Seq<char>, stack: Seq<u8>, level: u8) -> (Seq<char>, Seq<u8>)
    decreases stack.len(),
{
    if stack.len() > 1 && level < stack.last() {
        toc_close(body + "</li></ul>"@, stack.drop_last(), level)
    } else {
        (body, stack)
    }
}

/// The items of a heading list.
pub open spec fn toc_fold(hs: Seq<(u8, Seq<char>, Seq<char>)>) -> TocState
    decreases hs.len(),
{
    if hs.len() == 0 {
        ("<ul>"@, Seq::empty())
    } else {
        let h = hs.last();
        toc_step(toc_fold(hs.drop_last()), h.0, h.1, h.2)
    }
}

/// Closing whatever is open at the end.
pub open spec fn toc_finish(body: Seq<char>, stack: Seq<u8>) -> Seq<char>
    decreases stack.len(),
{
    if stack.len() > 1 {
        toc_finish(body + "</li></ul>"@, stack.drop_last())
    } else if stack.len() == 1 {
        body + "</li>"@ + "</ul>"@
    } else {
        body + "</ul>"@
    }
}

/// The `<nav class="table-of-contents">` of the headings.
pub open spec fn spec_toc_nav(hs: Seq<(u8, Seq<char>, Seq<char>)>) -> Seq<char> {
    let st = toc_fold(hs);
    "<nav class=\"table-of-contents\">"@ + toc_finish(st.0, st.1) + "</nav>"@
}

pub open spec fn heading_view(h: Heading) -> (u8, Seq<char>, Seq<char>) {
    (h.level, h.id@, h.text@)
}

/// The `[[toc]]` rewrite: without the placeholder the HTML is as it was;
/// otherwise the placeholder (in its own paragraph, then bare) becomes
/// the nested table of contents.
pub open spec fn spec_replace_toc(html: Seq<char>, hs: Seq<(u8, Seq<char>, Seq<char>)>) -> Seq<char> {
    if !crate::markdown::preprocess::contains_seq(html, TOC_MARK@) {
        html
    } else {
        let toc = spec_toc_nav(hs);
        replace_all(replace_all(html, "<p>"@ + TOC_MARK@ + "</p>"@, toc), TOC_MARK@, toc)
    }
}

pub fn toc_close_v(body: &mut Vec<char>, stack: &mut Vec<u8>, level: u8)
    requires
        old(stack).len() >= 1,
    ensures
        (final(body)@, final(stack)@) == toc_close(old(body)@, old(stack)@, level),
        final(stack).len() >= 1,
{
    while stack.len() > 1 && level < stack[stack.len() - 1]
        invariant
            stack.len() >= 1,
            toc_close(old(body)@, old(stack)@, level) == toc_close(body@, stack@, level),
        decreases stack.len(),
    {
        push_str(body, "</li></ul>");
        let ghost s0 = stack@;
        stack.pop();
        assert(stack@ =~= s0.drop_last());
    }
}

/// `[[toc]]` → a nested table of contents of the page's headings.
pub fn replace_toc(html: &str, headings: &Vec<Heading>) -> (r: String)
    ensures
        r@ == spec_replace_toc(html@, headings@.map_values(|h: Heading| heading_view(h))),
{
    let hv = to_chars(html);
    let mark = to_chars(TOC_MARK);
    if !crate::markdown::preprocess::contains_v(&hv, &mark) {
        return String::from_str(html);
    }
    let ghost hs = headings@.map_values(|h: Heading| heading_view(h));
    let mut body = to_chars("<ul>");
    let mut stack: Vec<u8> = Vec::new();
    let mut i: usize = 0;
    assert(hs.take(0) =~= Seq::<(u8, Seq<char>, Seq<char>)>::empty());
    while i < headings.len()
        invariant
            i <= headings.len(),
            hs == headings@.map_values(|h: Heading| heading_view(h)),
            (body@, stack@) == toc_fold(hs.take(ix(i))),
        decreases headings.len() - i,
    {
        let h = &headings[i];
        assert(hs.take(ix(i) + 1).drop_last() =~= hs.take(ix(i)));
        assert(hs.take(ix(i) + 1).last() == heading_view(*h));
        let ghost b0 = body@;
        let ghost s0 = stack@;
        let mut link = to_chars("<a href=\"#");
        push_str(&mut link, h.id.as_str());
        push_str(&mut link, "\">");
        let tv = to_chars(h.text.as_str());
        push_escaped(&mut link, &tv);
        push_str(&mut link, "</a>");
        if stack.len() == 0 {
            push_str(&mut body, "<li>");
            push_all(&mut body, &link);
            stack.push(h.level);
            assert(stack@ =~= seq![h.level]);
        } else if h.level > stack[stack.len() - 1] {
            push_str(&mut body, "<ul><li>");
            push_all(&mut body, &link);
            stack.push(h.level);
        } else {
            toc_close_v(&mut body, &mut stack, h.level);
            push_str(&mut body, "</li><li>");
            push_all(&mut body, &link);
            let last = stack.len() - 1;
            stack.set(last, h.level);
        }
        i += 1;
    }
    assert(hs.take(ix(i)) =~= hs);
    let ghost b1 = body@;
    let ghost s1 = stack@;
    while stack.len() > 1
        invariant
            toc_finish(b1, s1) == toc_finish(body@, stack@),
        decreases stack.len(),
    {
        push_str(&mut body, "</li></ul>");
        let ghost st = stack@;
        stack.pop();
        assert(stack@ =~= st.drop_last());
    }
    if stack.len() > 0 {
        push_str(&mut body, "</li>");
    }
    push_str(&mut body, "</ul>");
    let mut toc = to_chars("<nav class=\"table-of-contents\">");
    push_all(&mut toc, &body);
    push_str(&mut toc, "</nav>");
    assert(toc@ =~= spec_toc_nav(hs));
    let ts = from_chars(&toc);
    let mut para = to_chars("<p>");
    push_str(&mut para, TOC_MARK);
    push_str(&mut para, "</p>");
    let ps = from_chars(&para);
    proof {
        reveal_strlit("<p>");
        reveal_strlit("<!--gd-toc-->");
    }
    let first = replace_all_v(&hv, ps.as_str(), ts.as_str());
    let second = replace_all_v(&first, TOC_MARK, ts.as_str());
    from_chars(&second)
}


// ── custom heading ids ─────────────────────────────────────────────────

/// The last position where `p` occurs in `s` at or before `i`, or -1.
pub open spec fn last_occurrence_from(s: Seq<char>, p: Seq<char>, i: int) -> int
    decreases i + 1,
{
    if i < 0 {
        -1
    } else if occurs_at(s, p, i) {
        i
    } else {
        last_occurrence_from(s, p, i - 1)
    }
}

/// `str::rfind`.
pub open spec fn last_occurrence(s: Seq<char>, p: Seq<char>) -> int {
    last_occurrence_from(s, p, s.len() - p.len())
}

proof fn lemma_last_occurrence_from(s: Seq<char>, p: Seq<char>, i: int)
    ensures
        last_occurrence_from(s, p, i) == -1 || (0 <= last_occurrence_from(s, p, i) <= i && occurs_at(
            s,
            p,
            last_occurrence_from(s, p, i),
        )),
    decreases i + 1,
{
    if i >= 0 && !occurs_at(s, p, i) {
        lemma_last_occurrence_from(s, p, i - 1);
    }
}

/// `Heading {#my-id}` → (`Heading`, `my-id`): a trailing `{#…}` is the
/// custom anchor, the text before it (trailing space trimmed) the title.
pub open spec fn spec_split_heading_anchor(text: Seq<char>) -> (Seq<char>, Option<Seq<char>>) {
    let i = last_occurrence(text, "{#"@);
    if ends_with(text, "}"@) && i >= 0 {
        (crate::text::trim_end(text.take(i)), Some(text.subrange(i + 2, text.len() - 1)))
    } else {
        (text, None)
    }
}

pub fn split_heading_anchor(text: &str) -> (r: (String, Option<String>))
    ensures
        (r.0@, r.1.deep_view()) == spec_split_heading_anchor(text@),
{
    let v = to_chars(text);
    proof {
        reveal_strlit("{#");
        reveal_strlit("}");
    }
    if !ends_with_str(&v, "}") || v.len() < 2 {
        proof {
            if v.len() < 2 {
                lemma_last_occurrence_from(v@, "{#"@, v@.len() - 2);
            }
        }
        return (String::from_str(text), None);
    }
    let mut i: usize = v.len() - 2;
    let ghost goal = last_occurrence(v@, "{#"@);
    loop
        invariant
            i + 2 <= v.len(),
            goal == last_occurrence(v@, "{#"@),
            goal == last_occurrence_from(v@, "{#"@, ix(i)),
            ends_with(v@, "}"@),
            v@ == text@,
        decreases i,
    {
        proof {
            reveal_strlit("{#");
            reveal_strlit("}");
            assert("{#"@ =~= seq!['{', '#']);
            assert("}"@ =~= seq!['}']);
        }
        if v[i] == '{' && v[i + 1] == '#' {
            assert(occurs_at(v@, "{#"@, ix(i))) by {
                assert(v@.subrange(ix(i), ix(i) + 2) =~= "{#"@);
            }
            assert(v@[v@.len() - 1] == '}') by {
                assert(v@.subrange(v@.len() - 1, v@.len() as int)[0] == v@[v@.len() - 1]);
            }
            assert(i + 2 <= v.len() - 1);
            let head = slice_of(&v, 0, i);
            assert(head@ =~= v@.take(ix(i)));
            let t = crate::text::trim_end_v(&head);
            let id = slice_of(&v, i + 2, v.len() - 1);
            return (from_chars(&t), Some(from_chars(&id)));
        }
        assert(!occurs_at(v@, "{#"@, ix(i))) by {
            if occurs_at(v@, "{#"@, ix(i)) {
                assert(v@.subrange(ix(i), ix(i) + 2)[0] == v@[ix(i)]);
                assert(v@.subrange(ix(i), ix(i) + 2)[1] == v@[ix(i) + 1]);
            }
        }
        if i == 0 {
            assert(last_occurrence_from(v@, "{#"@, -1) == -1);
            return (String::from_str(text), None);
        }
        i -= 1;
    }
}


/// A heading as (id, rendered id).
pub open spec fn id_pair(h: Heading) -> (Seq<char>, Seq<char>) {
    (h.id@, h.rendered_id@)
}

/// Some heading carries a custom id.
pub open spec fn any_custom_id(hs: Seq<(Seq<char>, Seq<char>)>) -> bool {
    exists|k: int| 0 <= k < hs.len() && hs[k].0 != hs[k].1
}

/// A heading element with its slug swapped for the custom id (in `id=`
/// and the anchor's `href=`) and the literal ` {#id}` removed.
pub open spec fn fix_heading(seg: Seq<char>, id: Seq<char>, rendered: Seq<char>) -> Seq<char> {
    let a = replace_all(seg, "id=\""@ + rendered + "\""@, "id=\""@ + id + "\""@);
    let b = replace_all(a, "href=\"#"@ + rendered + "\""@, "href=\"#"@ + id + "\""@);
    replace_all(b, " {#"@ + id + "}"@, Seq::empty())
}

/// Every `<h` is followed by an ASCII character (the scan steps over
/// `<h` and one more byte).
pub open spec fn tags_well_formed(html: Seq<char>) -> bool {
    forall|i: int| occurs_at(html, "<h"@, i) ==> i + 2 < html.len() && (html[i + 2] as u32) < 128
}

pub open spec fn is_level_char(c: char) -> bool {
    '0' <= c && c <= '6'
}

/// The custom-id pass from `pos` on, heading element `k` next: each
/// `<hN …>…</hN>` element in document order is matched with the next
/// heading; other `<h…` tags are skipped; an unclosed element ends the
/// pass.
pub open spec fn ids_from(html: Seq<char>, hs: Seq<(Seq<char>, Seq<char>)>, pos: int, k: int) -> Seq<char>
    decreases html.len() - pos,
{
    if pos < 0 || pos > html.len() {
        Seq::empty()
    } else {
        let open = find_seq_from(html, "<h"@, pos);
        proof {
            lemma_find_seq_from(html, "<h"@, pos);
            reveal_strlit("<h");
        }
        if open < 0 {
            html.skip(pos)
        } else if open + 3 > html.len() {
            html.skip(pos)
        } else if !is_level_char(html[open + 2]) {
            html.subrange(pos, open + 3) + ids_from(html, hs, open + 3, k)
        } else {
            let tag = "</h"@ + seq![html[open + 2]] + ">"@;
            let c = find_seq_from(html, tag, open);
            proof {
                lemma_find_seq_from(html, tag, open);
            }
            if c < 0 {
                html.skip(pos)
            } else {
                let seg_end = c + tag.len();
                let seg = html.subrange(open, seg_end);
                let fixed = if 0 <= k < hs.len() && hs[k].0 != hs[k].1 {
                    fix_heading(seg, hs[k].0, hs[k].1)
                } else {
                    seg
                };
                html.subrange(pos, open) + fixed + ids_from(html, hs, seg_end, k + 1)
            }
        }
    }
}

/// The custom-id pass: unchanged when no heading has a custom id.
pub open spec fn spec_apply_custom_heading_ids(html: Seq<char>, hs: Seq<(Seq<char>, Seq<char>)>) -> Seq<char> {
    if !any_custom_id(hs) {
        html
    } else {
        ids_from(html, hs, 0, 0)
    }
}

fn any_custom_id_v(headings: &Vec<Heading>) -> (b: bool)
    ensures
        b == any_custom_id(headings@.map_values(|h: Heading| id_pair(h))),
{
    let ghost hs = headings@.map_values(|h: Heading| id_pair(h));
    let mut k: usize = 0;
    while k < headings.len()
        invariant
            k <= headings.len(),
            hs == headings@.map_values(|h: Heading| id_pair(h)),
            forall|m: int| 0 <= m < k ==> hs[m].0 == hs[m].1,
        decreases headings.len() - k,
    {
        let h = &headings[k];
        assert(hs[ix(k)] == (h.id@, h.rendered_id@));
        if !crate::text::eq_v(&to_chars(h.id.as_str()), &to_chars(h.rendered_id.as_str())) {
            return true;
        }
        k += 1;
    }
    false
}

fn fix_heading_v(seg: &Vec<char>, h: &Heading) -> (r: Vec<char>)
    ensures
        r@ == fix_heading(seg@, h.id@, h.rendered_id@),
{
    let mut p1 = to_chars("id=\"");
    push_str(&mut p1, h.rendered_id.as_str());
    push_str(&mut p1, "\"");
    let mut r1 = to_chars("id=\"");
    push_str(&mut r1, h.id.as_str());
    push_str(&mut r1, "\"");
    let mut p2 = to_chars("href=\"#");
    push_str(&mut p2, h.rendered_id.as_str());
    push_str(&mut p2, "\"");
    let mut r2 = to_chars("href=\"#");
    push_str(&mut r2, h.id.as_str());
    push_str(&mut r2, "\"");
    let mut p3 = to_chars(" {#");
    push_str(&mut p3, h.id.as_str());
    push_str(&mut p3, "}");
    proof {
        reveal_strlit("id=\"");
        reveal_strlit("href=\"#");
        reveal_strlit(" {#");
        reveal_strlit("\"");
        reveal_strlit("}");
        reveal_strlit("");
        assert(p1@.len() > 0);
        assert(p2@.len() > 0);
        assert(p3@.len() > 0);
        assert(""@ =~= Seq::<char>::empty());
    }
    let a = replace_all_v(seg, from_chars(&p1).as_str(), from_chars(&r1).as_str());
    let b = replace_all_v(&a, from_chars(&p2).as_str(), from_chars(&r2).as_str());
    replace_all_v(&b, from_chars(&p3).as_str(), "")
}

/// Swap each heading's rendered slug for its `{#custom}` id and strip
/// the literal attribute from the rendered text; heading elements and
/// `headings` are both in document order.
pub fn apply_custom_heading_ids(html: &str, headings: &Vec<Heading>) -> (r: String)
    requires
        any_custom_id(headings@.map_values(|h: Heading| id_pair(h))) ==> tags_well_formed(html@),
    ensures
        r@ == spec_apply_custom_heading_ids(html@, headings@.map_values(|h: Heading| id_pair(h))),
{
    let ghost hs = headings@.map_values(|h: Heading| id_pair(h));
    if !any_custom_id_v(headings) {
        return String::from_str(html);
    }
    let v = to_chars(html);
    let lt_h = to_chars("<h");
    proof {
        reveal_strlit("<h");
    }
    let mut out: Vec<char> = Vec::new();
    let mut pos: usize = 0;
    let mut k: usize = 0;
    let ghost goal = ids_from(v@, hs, 0, 0);
    assert(out@ =~= Seq::<char>::empty());
    loop
        invariant
            pos <= v.len(),
            v@ == html@,
            lt_h@ == "<h"@,
            tags_well_formed(v@),
            hs == headings@.map_values(|h: Heading| id_pair(h)),
            any_custom_id(hs),
            goal == ids_from(v@, hs, 0, 0),
            goal == out@ + ids_from(v@, hs, ix(pos), ix(k)),
            k <= pos,
        decreases v.len() - pos,
    {
        proof {
            lemma_find_seq_from(v@, lt_h@, ix(pos));
            reveal_strlit("<h");
        }
        let open = match find_seq_from_v(&v, &lt_h, pos) {
            Some(o) => o,
            None => {
                let tail = slice_of(&v, pos, v.len());
                push_all(&mut out, &tail);
                assert(ids_from(v@, hs, ix(pos), ix(k)) == v@.skip(ix(pos)));
                assert(tail@ =~= v@.skip(ix(pos)));
                assert(out@ =~= goal);
                return from_chars(&out);
            },
        };
        assert(open + 2 < v.len());
        let lc = v[open + 2];
        if !('0' <= lc && lc <= '6') {
            let piece = slice_of(&v, pos, open + 3);
            push_all(&mut out, &piece);
            pos = open + 3;
            continue;
        }
        let mut tag = to_chars("</h");
        tag.push(lc);
        push_str(&mut tag, ">");
        proof {
            reveal_strlit("</h");
            reveal_strlit(">");
            assert(tag@ =~= "</h"@ + seq![lc] + ">"@);
            lemma_find_seq_from(v@, tag@, ix(open));
        }
        let c = match find_seq_from_v(&v, &tag, open) {
            Some(c) => c,
            None => {
                let tail = slice_of(&v, pos, v.len());
                push_all(&mut out, &tail);
                assert(is_level_char(v@[ix(open) + 2]));
                assert(ids_from(v@, hs, ix(pos), ix(k)) == v@.skip(ix(pos)));
                assert(tail@ =~= v@.skip(ix(pos)));
                assert(out@ =~= goal);
                return from_chars(&out);
            },
        };
        let seg_end = c + tag.len();
        let before = slice_of(&v, pos, open);
        push_all(&mut out, &before);
        let seg = slice_of(&v, open, seg_end);
        if k < headings.len() && !crate::text::eq_v(
            &to_chars(headings[k].id.as_str()),
            &to_chars(headings[k].rendered_id.as_str()),
        ) {
            assert(hs[ix(k)] == (headings@[ix(k)].id@, headings@[ix(k)].rendered_id@));
            let fixed = fix_heading_v(&seg, &headings[k]);
            push_all(&mut out, &fixed);
        } else {
            proof {
                if k < headings.len() {
                    assert(hs[ix(k)] == (headings@[ix(k)].id@, headings@[ix(k)].rendered_id@));
                }
            }
            push_all(&mut out, &seg);
        }
        pos = seg_end;
        k += 1;
    }
}

// ── headings and the finished page ─────────────────────────────────────

/// A heading from its level, its text as written and the slug the
/// renderer gave it: a trailing `{#id}` names the anchor and is dropped
/// from the text.
pub open spec fn heading_ok(h: Heading, level: u8, raw: Seq<char>, rendered_id: Seq<char>) -> bool {
    let (text, custom) = spec_split_heading_anchor(raw);
    &&& h.level == level
    &&& h.text@ == text
    &&& h.rendered_id@ == rendered_id
    &&& h.id@ == match custom {
        Some(c) => c,
        None => rendered_id,
    }
}

pub fn heading_from(level: u8, raw: &str, rendered_id: String) -> (h: Heading)
    ensures
        heading_ok(h, level, raw@, rendered_id@),
{
    let (text, custom) = split_heading_anchor(raw);
    let id = match custom {
        Some(c) => c,
        None => rendered_id.clone(),
    };
    Heading { level, id, text, rendered_id }
}

/// Where the first `</span>` at or after `j` starts; with `one_line`,
/// only one before any newline counts. The end of `s` when there is none.
pub open spec fn span_close(s: Seq<char>, j: int, one_line: bool) -> int
    decreases s.len() - j,
{
    if j < 0 || j >= s.len() {
        s.len() as int
    } else if starts_with(s.skip(j), "</span>"@) {
        j
    } else if one_line && s[j] == '\n' {
        s.len() as int
    } else {
        span_close(s, j + 1, one_line)
    }
}

pub proof fn lemma_span_close_after(s: Seq<char>, j: int, one_line: bool)
    requires
        0 <= j,
    ensures
        span_close(s, j, one_line) < s.len() ==> span_close(s, j, one_line) >= j && span_close(s, j, one_line) + 7
            <= s.len(),
    decreases s.len() - j,
{
    reveal_strlit("</span>");
    if j < s.len() && !starts_with(s.skip(j), "</span>"@) && !(one_line && s[j] == '\n') {
        lemma_span_close_after(s, j + 1, one_line);
    }
}

/// The text from `i` on with every `open … </span>` span (the first
/// `</span>` after `open`, on the same line unless `dotall`) given the
/// delimiters `l` and `r` around its content, scanning left to right.
pub open spec fn delimit_from(
    s: Seq<char>,
    i: int,
    open: Seq<char>,
    l: Seq<char>,
    r: Seq<char>,
    dotall: bool,
) -> Seq<char>
    decreases s.len() - i,
{
    if i < 0 || i >= s.len() {
        Seq::empty()
    } else if open.len() > 0 && starts_with(s.skip(i), open) && span_close(s, i + open.len(), !dotall) < s.len() {
        let j = span_close(s, i + open.len(), !dotall);
        proof {
            lemma_span_close_after(s, i + open.len(), !dotall);
        }
        open + l + s.subrange(i + open.len(), j) + r + "</span>"@ + delimit_from(s, j + 7, open, l, r, dotall)
    } else {
        seq![s[i]] + delimit_from(s, i + 1, open, l, r, dotall)
    }
}

/// Inline math spans with `\(…\)` delimiters added: what
/// `(<span data-math-style="inline">)(.*?)(</span>)` replaced by
/// `$1\($2\)$3` leaves (`.` stops at a newline).
pub open spec fn spec_delimit_inline_math(html: Seq<char>) -> Seq<char> {
    delimit_from(html, 0, "<span data-math-style=\"inline\">"@, "\\("@, "\\)"@, false)
}

/// Display math spans with `\[…\]` delimiters added: what
/// `(?s)(<span data-math-style="display">)(.*?)(</span>)` replaced by
/// `$1\[$2\]$3` leaves.
pub open spec fn spec_delimit_display_math(html: Seq<char>) -> Seq<char> {
    delimit_from(html, 0, "<span data-math-style=\"display\">"@, "\\["@, "\\]"@, true)
}

/// `regex::Regex::replace_all` with the inline-math pattern: its
/// leftmost matches, each with the shortest content, replaced; the text
/// left is `spec_delimit_inline_math`'s.
#[verifier::external_body]
fn delimit_inline_math(html: &str) -> (r: String)
    ensures
        r@ == spec_delimit_inline_math(html@),
{
    let re = regex::Regex::new(r#"(<span data-math-style="inline">)(.*?)(</span>)"#).unwrap();
    re.replace_all(html, "$1\\($2\\)$3").into_owned()
}

/// `regex::Regex::replace_all` with the display-math pattern: its
/// leftmost matches, each with the shortest content, replaced; the text
/// left is `spec_delimit_display_math`'s.
#[verifier::external_body]
fn delimit_display_math(html: &str) -> (r: String)
    ensures
        r@ == spec_delimit_display_math(html@),
{
    let re = regex::Regex::new(r#"(?s)(<span data-math-style="display">)(.*?)(</span>)"#).unwrap();
    re.replace_all(html, "$1\\[$2\\]$3").into_owned()
}

/// What the rendered HTML of a page becomes: custom heading anchors
/// applied, `[[toc]]` expanded, images lazy when configured; pages with
/// math spans get MathJax delimiters when math is enabled.
pub open spec fn spec_finish_html(html: Seq<char>, hs: Seq<Heading>, lazy_images: bool, math: bool) -> (
    Seq<char>,
    bool,
) {
    let pairs = hs.map_values(|h: Heading| id_pair(h));
    let views = hs.map_values(|h: Heading| heading_view(h));
    let a = spec_replace_toc(spec_apply_custom_heading_ids(html, pairs), views);
    let b = if lazy_images {
        replace_all(a, "<img "@, "<img loading=\"lazy\" "@)
    } else {
        a
    };
    let has_math = contains_seq(b, "data-math-style"@);
    if math && has_math {
        (spec_delimit_display_math(spec_delimit_inline_math(b)), true)
    } else {
        (b, has_math)
    }
}

impl RenderedPage {
    /// The finished page from the renderer's HTML and the document's
    /// headings.
    pub fn finish(html: &str, headings: Vec<Heading>, lazy_images: bool, math: bool) -> (r: RenderedPage)
        requires
            any_custom_id(headings@.map_values(|h: Heading| id_pair(h))) ==> tags_well_formed(html@),
        ensures
            (r.html@, r.has_math) == spec_finish_html(html@, headings@, lazy_images, math),
            r.headings@ == headings@,
    {
        let a = apply_custom_heading_ids(html, &headings);
        let b = replace_toc(a.as_str(), &headings);
        let c = if lazy_images {
            let v = to_chars(b.as_str());
            proof {
                reveal_strlit("<img ");
            }
            from_chars(&replace_all_v(&v, "<img ", "<img loading=\"lazy\" "))
        } else {
            b
        };
        let cv = to_chars(c.as_str());
        let mark = to_chars("data-math-style");
        let has_math = contains_v(&cv, &mark);
        if math && has_math {
            let d = delimit_inline_math(c.as_str());
            let e = delimit_display_math(d.as_str());
            RenderedPage { html: e, headings, has_math: true }
        } else {
            RenderedPage { html: c, headings, has_math }
        }
    }
}

} // verus!
