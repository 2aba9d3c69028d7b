//! The include pass over whole pages: `<<<` code includes and
//! `<!--@include:-->` markdown includes resolved against the files the
//! caller has read, followed by the other preprocessing passes.
//!
//! Reading is the caller's part: the pass runs over the reads it is
//! given and, when it needs a file it has not been given, says which;
//! the caller reads it and runs the pass again.

use vstd::prelude::*;

use crate::markdown::preprocess::{
    after_includes, code_include_block, include_step, join_path, last_index_of, last_index_of_v,
    lemma_last_index_of, spec_after_includes, spec_code_block, spec_code_include_parts, spec_code_info,
    spec_code_meta, spec_include_content,
    spec_include_step, IncludeAction, Preprocess, PreprocessError, MAX_INCLUDE_DEPTH,
};
use crate::markdown::preprocess::{
    backtick_scan, spec_fence_marker_for, spec_is_closing_fence, spec_md_include_target, spec_opening_fence,
};
use crate::text::{
    ends_with, ends_with_v, eq_v, from_chars, is_ws, lemma_line_end_bounds, line_end, lines_from, push_all, push_str,
    run_len, slice_of, split_lines, split_lines_v, starts_with, to_chars, trim, trim_end, trim_end_nl, trim_start,
};
use vstd::seq_lib::lemma_flatten_concat;
use crate::markdown::highlight::{all_digits, decimal, is_digit, parse_usize_v};
use crate::markdown::preprocess::{extract_region, find_from, find_from_v, lemma_find_from, spec_extract_region};
use crate::markdown::{spec_split_heading_anchor, split_heading_anchor};
use crate::text::{char_lowercase, run_len_v, spec_char_lowercase, trim_end_nl_v, trim_v};

verus! {

broadcast use vstd::string::group_string_axioms;

/// A file as the caller read it: its content, or why it could not be
/// read.
#[derive(Debug)]
pub struct ReadFile {
    pub path: String,
    pub content: Result<String, String>,
}

/// Why a run of the preprocessing did not produce a page.
#[derive(Debug)]
pub enum RunError {
    /// An include failed.
    Failed(PreprocessError),
    /// The pass needs this file, which is not among the reads given.
    Unread(String),
}

/// What the reads say of `path`: the content (or error) of the first
/// read of it, if any.
pub open spec fn lookup_read(files: Seq<ReadFile>, path: Seq<char>) -> Option<Result<Seq<char>, Seq<char>>>
    decreases files.len(),
{
    if files.len() == 0 {
        None
    } else if files[0].path@ == path {
        Some(
            match files[0].content {
                Ok(c) => Ok(c@),
                Err(m) => Err(m@),
            },
        )
    } else {
        lookup_read(files.drop_first(), path)
    }
}

/// How the include pass over a text ends.
pub enum Included {
    /// The text with every include resolved.
    Text(Seq<char>),
    /// A markdown include (this path) nests too deep.
    TooDeep(Seq<char>),
    /// A markdown include's file (this path) could not be read (this
    /// message).
    Unreadable(Seq<char>, Seq<char>),
    /// The pass needs a file that was not read.
    Unread(Seq<char>),
}

/// `p` in front of a resolved text; failures pass through.
pub open spec fn prepend(p: Seq<char>, r: Included) -> Included {
    match r {
        Included::Text(t) => Included::Text(p + t),
        _ => r,
    }
}

/// `t` with a final newline.
pub open spec fn nl_terminated(t: Seq<char>) -> Seq<char> {
    if ends_with(t, "\n"@) {
        t
    } else {
        t + "\n"@
    }
}

/// `Path::extension` of a `/`-separated path (empty when there is
/// none): the file name's part after its last dot, unless that dot
/// starts the name.
pub open spec fn spec_extension(path: Seq<char>) -> Seq<char> {
    let name = path.skip(last_index_of(path, '/') + 1);
    let d = last_index_of(name, '.');
    if d > 0 {
        name.skip(d + 1)
    } else {
        Seq::empty()
    }
}

pub fn extension_of(path: &str) -> (r: String)
    ensures
        r@ == spec_extension(path@),
{
    let v = to_chars(path);
    proof {
        lemma_last_index_of(v@, '/');
    }
    let start: usize = match last_index_of_v(&v, '/') {
        Some(k) => k + 1,
        None => 0,
    };
    let name = slice_of(&v, start, v.len());
    assert(name@ =~= v@.skip(last_index_of(v@, '/') + 1));
    proof {
        lemma_last_index_of(name@, '.');
    }
    match last_index_of_v(&name, '.') {
        Some(d) => {
            if d > 0 {
                let e = slice_of(&name, d + 1, name.len());
                assert(e@ =~= name@.skip(d + 1));
                from_chars(&e)
            } else {
                from_chars(&Vec::new())
            }
        },
        None => from_chars(&Vec::new()),
    }
}


// ── include selectors ──────────────────────────────────────────────────

/// One bound of a `{from,to}` line range: empty, or decimal digits whose
/// value fits a machine word.
pub open spec fn range_bound(s: Seq<char>) -> Option<Option<nat>> {
    if s.len() == 0 {
        Some(None)
    } else if all_digits(s) && decimal(s) <= usize::MAX {
        Some(Some(decimal(s)))
    } else {
        None
    }
}

pub open spec fn opt_nat(b: Option<usize>) -> Option<nat> {
    match b {
        Some(n) => Some(n as nat),
        None => None,
    }
}

pub open spec fn range_view(r: Option<(Option<usize>, Option<usize>)>) -> Option<(Option<nat>, Option<nat>)> {
    match r {
        Some((a, b)) => Some((opt_nat(a), opt_nat(b))),
        None => None,
    }
}

/// A markdown include target split into its path, its `#anchor` (a
/// region name or a heading id) and its trailing `{from,to}` line
/// range; a brace group that is no such range stays in the path.
pub open spec fn spec_split_target(raw: Seq<char>) -> (Seq<char>, Option<Seq<char>>, Option<(Option<nat>, Option<nat>)>) {
    let o = last_index_of(raw, '{');
    let inner = raw.subrange(o + 1, raw.len() - 1);
    let c = find_from(inner, ',', 0);
    let ranged = raw.len() > 0 && raw.last() == '}' && o >= 0 && c >= 0 && range_bound(inner.take(c)) is Some
        && range_bound(inner.skip(c + 1)) is Some;
    let rest = if ranged {
        raw.take(o)
    } else {
        raw
    };
    let range = if ranged {
        Some((range_bound(inner.take(c))->0, range_bound(inner.skip(c + 1))->0))
    } else {
        None
    };
    let h = find_from(rest, '#', 0);
    if h >= 0 && h + 1 < rest.len() {
        (rest.take(h), Some(rest.skip(h + 1)), range)
    } else {
        (rest, None, range)
    }
}

fn range_bound_v(s: &Vec<char>) -> (r: Option<Option<usize>>)
    ensures
        match r {
            Some(b) => range_bound(s@) == Some(opt_nat(b)),
            None => range_bound(s@) is None,
        },
{
    if s.len() == 0 {
        return Some(None);
    }
    if s[0] == '+' {
        assert(!is_digit(s@[0]));
        return None;
    }
    assert(s@.skip(0) =~= s@);
    match parse_usize_v(s) {
        Some(n) => Some(Some(n)),
        None => None,
    }
}

/// The position of the `{` of a trailing line range, with its bounds.
fn range_suffix(v: &Vec<char>) -> (r: Option<(usize, Option<usize>, Option<usize>)>)
    ensures
        ({
            let o = last_index_of(v@, '{');
            let inner = v@.subrange(o + 1, v@.len() - 1);
            let c = find_from(inner, ',', 0);
            let ranged = v@.len() > 0 && v@.last() == '}' && o >= 0 && c >= 0 && range_bound(inner.take(c)) is Some
                && range_bound(inner.skip(c + 1)) is Some;
            match r {
                Some((k, a, b)) => ranged && k == o && k < v@.len() && range_bound(inner.take(c)) == Some(opt_nat(a))
                    && range_bound(inner.skip(c + 1)) == Some(opt_nat(b)),
                None => !ranged,
            }
        }),
{
    proof {
        lemma_last_index_of(v@, '{');
    }
    if v.len() == 0 || v[v.len() - 1] != '}' {
        return None;
    }
    let o = match last_index_of_v(v, '{') {
        Some(o) => o,
        None => {
            return None;
        },
    };
    let inner = slice_of(v, o + 1, v.len() - 1);
    proof {
        lemma_find_from(inner@, ',', 0);
    }
    let c = match find_from_v(&inner, ',', 0) {
        Some(c) => c,
        None => {
            return None;
        },
    };
    let a = slice_of(&inner, 0, c);
    let b = slice_of(&inner, c + 1, inner.len());
    assert(a@ =~= inner@.take(c as int));
    assert(b@ =~= inner@.skip(c + 1));
    match range_bound_v(&a) {
        Some(x) => match range_bound_v(&b) {
            Some(y) => Some((o, x, y)),
            None => None,
        },
        None => None,
    }
}

pub fn split_target(raw: &str) -> (r: (String, Option<String>, Option<(Option<usize>, Option<usize>)>))
    ensures
        ({
            let (p, a, g) = spec_split_target(raw@);
            r.0@ == p && r.1.deep_view() == a && range_view(r.2) == g
        }),
{
    let v = to_chars(raw);
    let (rest, range) = match range_suffix(&v) {
        Some((o, a, b)) => {
            let r = slice_of(&v, 0, o);
            assert(r@ =~= v@.take(o as int));
            (r, Some((a, b)))
        },
        None => {
            let r = slice_of(&v, 0, v.len());
            assert(r@ =~= v@);
            (r, None)
        },
    };
    proof {
        lemma_find_from(rest@, '#', 0);
    }
    match find_from_v(&rest, '#', 0) {
        Some(h) => {
            if h + 1 < rest.len() {
                let p = slice_of(&rest, 0, h);
                let a = slice_of(&rest, h + 1, rest.len());
                assert(p@ =~= rest@.take(h as int));
                assert(a@ =~= rest@.skip(h + 1));
                (from_chars(&p), Some(from_chars(&a)), range)
            } else {
                (from_chars(&rest), None, range)
            }
        },
        None => (from_chars(&rest), None, range),
    }
}

/// Lines `from..=to` (1-based, each bound optional) of `lines[k..]`,
/// concatenated.
pub open spec fn keep_lines(lines: Seq<Seq<char>>, from: Option<nat>, to: Option<nat>, k: int) -> Seq<char>
    decreases lines.len() - k,
{
    if k < 0 || k >= lines.len() {
        Seq::empty()
    } else {
        let n = k + 1;
        let keep = (from matches Some(f) ==> f <= n) && (to matches Some(t) ==> n <= t);
        (if keep {
            lines[k]
        } else {
            Seq::empty()
        }) + keep_lines(lines, from, to, k + 1)
    }
}

/// An ATX heading line: its level and its text.
pub open spec fn heading_of(line: Seq<char>) -> Option<(nat, Seq<char>)> {
    let t = trim_end_nl(line);
    let n = run_len(t, '#');
    if 1 <= n <= 6 && (t.len() == n || t[n as int] == ' ' || t[n as int] == '\t') {
        Some((n, trim(t.skip(n as int))))
    } else {
        None
    }
}

/// One character of a heading slug: letters and digits lower-cased,
/// `-` and `_` kept, a space becomes `-`, other ASCII punctuation is
/// dropped.
pub open spec fn slug_char(c: char) -> Seq<char> {
    if c == ' ' {
        seq!['-']
    } else if ('a' <= c && c <= 'z') || ('A' <= c && c <= 'Z') || ('0' <= c && c <= '9') || c == '-' || c == '_'
        || (c as u32) >= 128 {
        spec_char_lowercase(c)
    } else {
        Seq::empty()
    }
}

pub open spec fn slug(s: Seq<char>) -> Seq<char>
    decreases s.len(),
{
    if s.len() == 0 {
        Seq::empty()
    } else {
        slug(s.drop_last()) + slug_char(s.last())
    }
}

/// A heading's id: its `{#custom}` id, else the slug of its title.
pub open spec fn heading_id(text: Seq<char>) -> Seq<char> {
    let (title, custom) = spec_split_heading_anchor(text);
    match custom {
        Some(c) => c,
        None => slug(title),
    }
}

/// The first line from `k` on that is a heading with this id, or -1.
pub open spec fn find_heading(lines: Seq<Seq<char>>, id: Seq<char>, k: int) -> int
    decreases lines.len() - k,
{
    if k < 0 || k >= lines.len() {
        -1
    } else if heading_of(lines[k]) is Some && heading_id((heading_of(lines[k])->0).1) == id {
        k
    } else {
        find_heading(lines, id, k + 1)
    }
}

/// The first line from `k` on that is a heading of `level` or above,
/// else the number of lines.
pub open spec fn section_end(lines: Seq<Seq<char>>, level: nat, k: int) -> int
    decreases lines.len() - k,
{
    if k < 0 || k >= lines.len() {
        lines.len() as int
    } else if heading_of(lines[k]) is Some && (heading_of(lines[k])->0).0 <= level {
        k
    } else {
        section_end(lines, level, k + 1)
    }
}

/// The section under the heading with this id: the lines after it up to
/// the next heading of its level or above.
pub open spec fn spec_heading_section(content: Seq<char>, id: Seq<char>) -> Option<Seq<char>> {
    let ls = split_lines(content);
    let s = find_heading(ls, id, 0);
    if s >= 0 {
        let e = section_end(ls, (heading_of(ls[s])->0).0, s + 1);
        Some(ls.subrange(s + 1, e).flatten())
    } else {
        None
    }
}

/// The part of an included file a target selects: the region or heading
/// section its anchor names (the whole file when neither exists), then
/// the lines of its range.
pub open spec fn spec_select(content: Seq<char>, anchor: Option<Seq<char>>, range: Option<(Option<nat>, Option<nat>)>) -> Seq<char> {
    let c1 = match anchor {
        None => content,
        Some(a) => match spec_extract_region(content, a) {
            Some(r) => r,
            None => match spec_heading_section(content, a) {
                Some(s) => s,
                None => content,
            },
        },
    };
    match range {
        None => c1,
        Some((from, to)) => keep_lines(split_lines(c1), from, to, 0),
    }
}

fn keep_lines_v(content: &Vec<char>, from: Option<usize>, to: Option<usize>) -> (r: Vec<char>)
    ensures
        r@ == keep_lines(split_lines(content@), opt_nat(from), opt_nat(to), 0),
{
    let lines = split_lines_v(content);
    let ghost ls = split_lines(content@);
    let mut out: Vec<char> = Vec::new();
    let mut k: usize = 0;
    assert(out@ + keep_lines(ls, opt_nat(from), opt_nat(to), 0) =~= keep_lines(ls, opt_nat(from), opt_nat(to), 0));
    while k < lines.len()
        invariant
            k <= lines.len(),
            lines.len() == ls.len(),
            ls == split_lines(content@),
            forall|j: int| 0 <= j < lines.len() ==> (#[trigger] lines@[j])@ == ls[j],
            out@ + keep_lines(ls, opt_nat(from), opt_nat(to), k as int) == keep_lines(
                ls,
                opt_nat(from),
                opt_nat(to),
                0,
            ),
        decreases lines.len() - k,
    {
        let n = k + 1;
        let keep = (match from {
            Some(f) => f <= n,
            None => true,
        }) && (match to {
            Some(t) => n <= t,
            None => true,
        });
        let ghost before = out@;
        if keep {
            push_all(&mut out, &lines[k]);
        }
        proof {
            assert(lines@[k as int]@ == ls[k as int]);
            let piece = if keep {
                ls[k as int]
            } else {
                Seq::<char>::empty()
            };
            assert(out@ =~= before + piece);
            assert(before + keep_lines(ls, opt_nat(from), opt_nat(to), k as int) =~= out@ + keep_lines(
                ls,
                opt_nat(from),
                opt_nat(to),
                k + 1,
            ));
        }
        k += 1;
    }
    assert(out@ + Seq::<char>::empty() =~= out@);
    out
}

fn heading_of_v(line: &Vec<char>) -> (r: Option<(usize, Vec<char>)>)
    ensures
        match r {
            Some((n, t)) => heading_of(line@) == Some((n as nat, t@)),
            None => heading_of(line@) is None,
        },
{
    let t = trim_end_nl_v(line);
    let n = run_len_v(&t, '#');
    if 1 <= n && n <= 6 && (t.len() == n || t[n] == ' ' || t[n] == '\t') {
        let rest = slice_of(&t, n, t.len());
        assert(rest@ =~= t@.skip(n as int));
        Some((n, trim_v(&rest)))
    } else {
        None
    }
}

fn slug_v(s: &Vec<char>) -> (r: Vec<char>)
    ensures
        r@ == slug(s@),
{
    let mut out: Vec<char> = Vec::new();
    let mut i: usize = 0;
    assert(s@.take(0) =~= Seq::<char>::empty());
    while i < s.len()
        invariant
            i <= s.len(),
            out@ == slug(s@.take(i as int)),
        decreases s.len() - i,
    {
        let c = s[i];
        assert(s@.take(i + 1).drop_last() =~= s@.take(i as int));
        assert(s@.take(i + 1).last() == c);
        if c == ' ' {
            out.push('-');
            assert(out@ =~= slug(s@.take(i as int)) + seq!['-']);
        } else if ('a' <= c && c <= 'z') || ('A' <= c && c <= 'Z') || ('0' <= c && c <= '9') || c == '-' || c
            == '_' || (c as u32) >= 128 {
            let low = char_lowercase(c);
            push_all(&mut out, &low);
        } else {
            assert(slug_char(c) =~= Seq::<char>::empty());
            assert(out@ =~= slug(s@.take(i as int)) + slug_char(c));
        }
        i += 1;
    }
    assert(s@.take(s.len() as int) =~= s@);
    out
}

fn heading_id_v(text: &Vec<char>) -> (r: Vec<char>)
    ensures
        r@ == heading_id(text@),
{
    let (title, custom) = split_heading_anchor(from_chars(text).as_str());
    match custom {
        Some(c) => to_chars(c.as_str()),
        None => slug_v(&to_chars(title.as_str())),
    }
}

fn heading_section_v(content: &Vec<char>, id: &Vec<char>) -> (r: Option<Vec<char>>)
    ensures
        match r {
            Some(x) => spec_heading_section(content@, id@) == Some(x@),
            None => spec_heading_section(content@, id@) is None,
        },
{
    let lines = split_lines_v(content);
    let ghost ls = split_lines(content@);
    let mut s: usize = 0;
    let mut found = false;
    let mut level: usize = 0;
    while s < lines.len()
        invariant_except_break
            find_heading(ls, id@, 0) == find_heading(ls, id@, s as int),
            !found,
        invariant
            s <= lines.len(),
            lines.len() == ls.len(),
            ls == split_lines(content@),
            forall|j: int| 0 <= j < lines.len() ==> (#[trigger] lines@[j])@ == ls[j],
        ensures
            found ==> s < lines.len() && find_heading(ls, id@, 0) == s && heading_of(ls[s as int]) is Some
                && (heading_of(ls[s as int])->0).0 == level,
            !found ==> find_heading(ls, id@, 0) == -1,
        decreases lines.len() - s,
    {
        assert(lines@[s as int]@ == ls[s as int]);
        match heading_of_v(&lines[s]) {
            Some((n, text)) => {
                let hid = heading_id_v(&text);
                if eq_v(&hid, id) {
                    found = true;
                    level = n;
                    break;
                }
            },
            None => {},
        }
        s += 1;
    }
    if !found {
        return None;
    }
    let mut e: usize = s + 1;
    while e < lines.len()
        invariant_except_break
            section_end(ls, level as nat, s + 1) == section_end(ls, level as nat, e as int),
        invariant
            s < e <= lines.len(),
            lines.len() == ls.len(),
            ls == split_lines(content@),
            forall|j: int| 0 <= j < lines.len() ==> (#[trigger] lines@[j])@ == ls[j],
        ensures
            section_end(ls, level as nat, s + 1) == e,
            e <= lines.len(),
        decreases lines.len() - e,
    {
        assert(lines@[e as int]@ == ls[e as int]);
        match heading_of_v(&lines[e]) {
            Some((n, _)) => {
                if n <= level {
                    break;
                }
            },
            None => {},
        }
        e += 1;
    }
    let mut out: Vec<char> = Vec::new();
    let mut j: usize = s + 1;
    assert(ls.subrange(s + 1, s + 1) =~= Seq::<Seq<char>>::empty());
    while j < e
        invariant
            s < j <= e <= lines.len(),
            lines.len() == ls.len(),
            forall|q: int| 0 <= q < lines.len() ==> (#[trigger] lines@[q])@ == ls[q],
            out@ == ls.subrange(s + 1, j as int).flatten(),
        decreases e - j,
    {
        assert(lines@[j as int]@ == ls[j as int]);
        assert(ls.subrange(s + 1, j + 1) =~= ls.subrange(s + 1, j as int).push(ls[j as int]));
        proof {
            ls.subrange(s + 1, j as int).lemma_flatten_push(ls[j as int]);
        }
        push_all(&mut out, &lines[j]);
        j += 1;
    }
    Some(out)
}

pub fn select_include(content: &str, anchor: &Option<String>, range: Option<(Option<usize>, Option<usize>)>) -> (r: String)
    ensures
        r@ == spec_select(content@, anchor.deep_view(), range_view(range)),
{
    let c1: Vec<char> = match anchor {
        None => to_chars(content),
        Some(a) => match extract_region(content, a.as_str()) {
            Some(r) => to_chars(r.as_str()),
            None => match heading_section_v(&to_chars(content), &to_chars(a.as_str())) {
                Some(x) => x,
                None => to_chars(content),
            },
        },
    };
    match range {
        None => from_chars(&c1),
        Some((from, to)) => from_chars(&keep_lines_v(&c1, from, to)),
    }
}

/// The file a code include names: `@/` targets under the site root,
/// others under the page's directory.
pub open spec fn spec_code_file(pre: Preprocess, page_rel: Seq<char>, target: Seq<char>) -> Seq<char> {
    if starts_with(target, "@/"@) {
        join_path(pre.site_root@, target.skip(2))
    } else {
        join_path(pre.spec_page_dir(page_rel), target)
    }
}

/// The include pass over `lines[i..]` of a text at nesting `depth`,
/// with `fence` open before them: fenced and plain lines are copied; a
/// code include becomes the fenced block of its file (the line stays
/// when the file cannot be read or the region is missing); a markdown
/// include becomes the part of its file its target selects, itself
/// resolved one level deeper and newline-terminated; inside a fence a
/// markdown include becomes that part as it is.
pub open spec fn resolve_lines(
    pre: Preprocess,
    page_rel: Seq<char>,
    lines: Seq<Seq<char>>,
    i: int,
    fence: Option<(char, usize)>,
    depth: u8,
    files: Seq<ReadFile>,
) -> Included
    decreases MAX_INCLUDE_DEPTH - depth, lines.len() - i,
{
    if i < 0 || i >= lines.len() {
        Included::Text(Seq::empty())
    } else {
        let line = lines[i];
        let (f, k, p) = spec_include_step(fence, line, depth);
        let head = if k == 1 {
            match spec_code_include_parts(trim(trim_end_nl(line))) {
                Some((target, region, label)) => {
                    let file = spec_code_file(pre, page_rel, target);
                    let ext = spec_extension(file);
                    let (lines, lang) = spec_code_meta(trim(trim_end_nl(line)));
                    match lookup_read(files, file) {
                        None => Included::Unread(file),
                        Some(Err(_)) => Included::Text(line),
                        Some(Ok(c)) => match spec_include_content(c, region, ext) {
                            Some(x) => Included::Text(spec_code_block(x, spec_code_info(ext, lines, lang), label)),
                            None => Included::Text(line),
                        },
                    }
                },
                None => Included::Text(line),
            }
        } else if k == 2 && depth < MAX_INCLUDE_DEPTH {
            let (path, anchor, range) = spec_split_target(p.unwrap());
            let file = join_path(pre.spec_page_dir(page_rel), path);
            match lookup_read(files, file) {
                None => Included::Unread(file),
                Some(Err(m)) => Included::Unreadable(file, m),
                Some(Ok(c)) => match resolve_lines(
                    pre,
                    page_rel,
                    split_lines(spec_select(c, anchor, range)),
                    0,
                    None,
                    (depth + 1) as u8,
                    files,
                ) {
                    Included::Text(t) => Included::Text(nl_terminated(t)),
                    other => other,
                },
            }
        } else if k == 3 {
            Included::TooDeep(p.unwrap())
        } else if k == 4 {
            let (path, anchor, range) = spec_split_target(p.unwrap());
            let file = join_path(pre.spec_page_dir(page_rel), path);
            match lookup_read(files, file) {
                None => Included::Unread(file),
                Some(Err(m)) => Included::Unreadable(file, m),
                Some(Ok(c)) => Included::Text(nl_terminated(spec_select(c, anchor, range))),
            }
        } else {
            Included::Text(line)
        };
        match head {
            Included::Text(h) => prepend(h, resolve_lines(pre, page_rel, lines, i + 1, f, depth, files)),
            _ => head,
        }
    }
}

/// The whole preprocessing of a page body over the given reads: the
/// include pass, then containers, fence info strings and badges.
pub open spec fn spec_run(pre: Preprocess, body: Seq<char>, page_rel: Seq<char>, files: Seq<ReadFile>) -> Included {
    match resolve_lines(pre, page_rel, split_lines(body), 0, None, 0, files) {
        Included::Text(t) => Included::Text(spec_after_includes(t)),
        other => other,
    }
}

/// The outcome a run's result stands for.
pub open spec fn outcome_of(r: Result<String, RunError>) -> Included {
    match r {
        Ok(s) => Included::Text(s@),
        Err(RunError::Unread(p)) => Included::Unread(p@),
        Err(RunError::Failed(PreprocessError::Depth { path })) => Included::TooDeep(path@),
        Err(RunError::Failed(PreprocessError::Read { path, message })) => Included::Unreadable(path@, message@),
    }
}

/// The index of the first read of `path`.
fn find_read(files: &Vec<ReadFile>, path: &String) -> (r: Option<usize>)
    ensures
        match r {
            Some(k) => k < files.len() && files@[k as int].path@ == path@ && lookup_read(files@, path@) == Some(
                match files@[k as int].content {
                    Ok(c) => Ok(c@),
                    Err(m) => Err(m@),
                },
            ),
            None => lookup_read(files@, path@) is None,
        },
{
    let pv = to_chars(path.as_str());
    let mut i: usize = 0;
    assert(files@.skip(0) =~= files@);
    while i < files.len()
        invariant
            i <= files.len(),
            pv@ == path@,
            lookup_read(files@, path@) == lookup_read(files@.skip(i as int), path@),
        decreases files.len() - i,
    {
        assert(files@.skip(i as int)[0] == files@[i as int]);
        if eq_v(&to_chars(files[i].path.as_str()), &pv) {
            return Some(i);
        }
        assert(files@.skip(i as int).drop_first() =~= files@.skip(i + 1));
        i += 1;
    }
    assert(files@.skip(i as int) =~= Seq::<ReadFile>::empty());
    None
}

proof fn lemma_prepend_twice(a: Seq<char>, b: Seq<char>, r: Included)
    ensures
        prepend(a, prepend(b, r)) == prepend(a + b, r),
{
    match r {
        Included::Text(t) => {
            assert(a + (b + t) =~= (a + b) + t);
        },
        _ => {},
    }
}

impl Preprocess {
    /// The include pass over `md` at nesting `depth`.
    fn resolve(&self, md: &str, page_rel: &str, depth: u8, files: &Vec<ReadFile>) -> (r: Result<String, RunError>)
        requires
            depth <= MAX_INCLUDE_DEPTH,
        ensures
            outcome_of(r) == resolve_lines(*self, page_rel@, split_lines(md@), 0, None, depth, files@),
        decreases MAX_INCLUDE_DEPTH - depth,
    {
        let v = to_chars(md);
        let lines = split_lines_v(&v);
        let ghost ls = split_lines(md@);
        let ghost total = resolve_lines(*self, page_rel@, ls, 0, None, depth, files@);
        let mut out: Vec<char> = Vec::new();
        let mut fence: Option<(char, usize)> = None;
        let mut i: usize = 0;
        assert(total == prepend(out@, resolve_lines(*self, page_rel@, ls, 0, fence, depth, files@))) by {
            match resolve_lines(*self, page_rel@, ls, 0, None, depth, files@) {
                Included::Text(t) => {
                    assert(Seq::<char>::empty() + t =~= t);
                },
                _ => {},
            }
        }
        while i < lines.len()
            invariant
                i <= lines.len(),
                lines.len() == ls.len(),
                ls == split_lines(md@),
                v@ == md@,
                depth <= MAX_INCLUDE_DEPTH,
                forall|k: int| 0 <= k < lines.len() ==> (#[trigger] lines@[k])@ == ls[k],
                total == resolve_lines(*self, page_rel@, ls, 0, None, depth, files@),
                total == prepend(out@, resolve_lines(*self, page_rel@, ls, i as int, fence, depth, files@)),
            decreases lines.len() - i,
        {
            let ghost line_v = ls[i as int];
            assert(lines@[i as int]@ == line_v);
            let line = from_chars(&lines[i]);
            let (next, action) = include_step(fence, line.as_str(), depth);
            let ghost rest = resolve_lines(*self, page_rel@, ls, i + 1, next, depth, files@);
            let ghost step = spec_include_step(fence, line_v, depth);
            assert(step.0 == next);
            let mut head: Vec<char> = Vec::new();
            match action {
                IncludeAction::Keep => {
                    push_all(&mut head, &lines[i]);
                },
                IncludeAction::Code(ci) => {
                    let file = self.code_include_file(page_rel, &ci);
                    match find_read(files, &file) {
                        None => {
                            return Err(RunError::Unread(file));
                        },
                        Some(k) => {
                            match &files[k].content {
                                Err(_) => {
                                    push_all(&mut head, &lines[i]);
                                },
                                Ok(c) => {
                                    let ext = extension_of(file.as_str());
                                    match code_include_block(c.as_str(), ext.as_str(), &ci) {
                                        Some(b) => {
                                            push_str(&mut head, b.as_str());
                                        },
                                        None => {
                                            push_all(&mut head, &lines[i]);
                                        },
                                    }
                                },
                            }
                        },
                    }
                },
                IncludeAction::Markdown(raw) => {
                    let (path, anchor, range) = split_target(raw.as_str());
                    let file = self.markdown_include_file(page_rel, path.as_str());
                    match find_read(files, &file) {
                        None => {
                            return Err(RunError::Unread(file));
                        },
                        Some(k) => {
                            match &files[k].content {
                                Err(m) => {
                                    let message = from_chars(&to_chars(m.as_str()));
                                    return Err(RunError::Failed(PreprocessError::Read { path: file, message }));
                                },
                                Ok(c) => {
                                    let part = select_include(c.as_str(), &anchor, range);
                                    let inner = self.resolve(part.as_str(), page_rel, depth + 1, files);
                                    match inner {
                                        Ok(t) => {
                                            let tv = to_chars(t.as_str());
                                            push_all(&mut head, &tv);
                                            if !ends_with_v(&tv, &to_chars("\n")) {
                                                push_str(&mut head, "\n");
                                            }
                                        },
                                        Err(e) => {
                                            return Err(e);
                                        },
                                    }
                                },
                            }
                        },
                    }
                },
                IncludeAction::TooDeep(p) => {
                    return Err(RunError::Failed(PreprocessError::Depth { path: p }));
                },
                IncludeAction::Verbatim(raw) => {
                    let (path, anchor, range) = split_target(raw.as_str());
                    let file = self.markdown_include_file(page_rel, path.as_str());
                    match find_read(files, &file) {
                        None => {
                            return Err(RunError::Unread(file));
                        },
                        Some(k) => {
                            match &files[k].content {
                                Err(m) => {
                                    let message = from_chars(&to_chars(m.as_str()));
                                    return Err(RunError::Failed(PreprocessError::Read { path: file, message }));
                                },
                                Ok(c) => {
                                    let part = select_include(c.as_str(), &anchor, range);
                                    let tv = to_chars(part.as_str());
                                    push_all(&mut head, &tv);
                                    if !ends_with_v(&tv, &to_chars("\n")) {
                                        push_str(&mut head, "\n");
                                    }
                                },
                            }
                        },
                    }
                },
            }
            proof {
                assert(resolve_lines(*self, page_rel@, ls, i as int, fence, depth, files@) == prepend(
                    head@,
                    rest,
                ));
                lemma_prepend_twice(out@, head@, rest);
            }
            push_all(&mut out, &head);
            fence = next;
            i += 1;
        }
        proof {
            assert(out@ + Seq::<char>::empty() =~= out@);
        }
        Ok(from_chars(&out))
    }

    /// The whole preprocessing of a page body over the files read so
    /// far: the include pass, then containers, fence info strings and
    /// badges. A file the pass needs and was not given comes back as
    /// `RunError::Unread`.
    pub fn run(&self, body: &str, page_rel: &str, files: &Vec<ReadFile>) -> (r: Result<String, RunError>)
        ensures
            outcome_of(r) == spec_run(*self, body@, page_rel@, files@),
    {
        match self.resolve(body, page_rel, 0, files) {
            Ok(md) => Ok(after_includes(md.as_str())),
            Err(e) => Err(e),
        }
    }
}


// ── a code block passes the include pass unchanged ─────────────────────

proof fn cut_trim_start(s: Seq<char>) -> (k: int)
    ensures
        0 <= k <= s.len(),
        trim_start(s) == s.skip(k),
    decreases s.len(),
{
    if s.len() > 0 && is_ws(s[0]) {
        let k1 = cut_trim_start(s.drop_first());
        assert(s.drop_first().skip(k1) =~= s.skip(k1 + 1));
        k1 + 1
    } else {
        assert(s.skip(0) =~= s);
        0
    }
}

proof fn cut_trim_end(s: Seq<char>) -> (k: int)
    ensures
        0 <= k <= s.len(),
        trim_end(s) == s.take(k),
    decreases s.len(),
{
    if s.len() > 0 && is_ws(s.last()) {
        let k1 = cut_trim_end(s.drop_last());
        assert(s.drop_last().take(k1) =~= s.take(k1));
        k1
    } else {
        assert(s.take(s.len() as int) =~= s);
        s.len() as int
    }
}

proof fn cut_trim_end_nl(s: Seq<char>) -> (k: int)
    ensures
        0 <= k <= s.len(),
        trim_end_nl(s) == s.take(k),
        forall|j: int| 0 <= j < s.len() && s[j] != '\n' && s[j] != '\r' ==> j < k,
    decreases s.len(),
{
    if s.len() > 0 && (s.last() == '\n' || s.last() == '\r') {
        let k1 = cut_trim_end_nl(s.drop_last());
        assert(s.drop_last().take(k1) =~= s.take(k1));
        assert forall|j: int| 0 <= j < s.len() && s[j] != '\n' && s[j] != '\r' implies j < k1 by {
            assert(j < s.len() - 1);
            assert(s.drop_last()[j] == s[j]);
        }
        k1
    } else {
        assert(s.take(s.len() as int) =~= s);
        s.len() as int
    }
}

proof fn lemma_scan_floor(s: Seq<char>)
    ensures
        backtick_scan(s).0 >= 2,
        backtick_scan(s).0 >= backtick_scan(s).1,
    decreases s.len(),
{
    if s.len() > 0 {
        lemma_scan_floor(s.drop_last());
    }
}

proof fn lemma_scan_append(a: Seq<char>, b: Seq<char>)
    ensures
        backtick_scan(a + b).0 >= backtick_scan(b).0,
        backtick_scan(a + b).1 >= backtick_scan(b).1,
        backtick_scan(a + b).0 >= backtick_scan(a).0,
    decreases b.len(),
{
    if b.len() == 0 {
        assert(a + b =~= a);
        lemma_scan_floor(a);
    } else {
        assert((a + b).drop_last() =~= a + b.drop_last());
        lemma_scan_append(a, b.drop_last());
    }
}

proof fn lemma_scan_sub(s: Seq<char>, lo: int, hi: int)
    requires
        0 <= lo <= hi <= s.len(),
    ensures
        backtick_scan(s.subrange(lo, hi)).0 <= backtick_scan(s).0,
{
    let p = s.take(lo);
    let m = s.subrange(lo, hi);
    let q = s.skip(hi);
    assert(s =~= (p + m) + q);
    lemma_scan_append(p, m);
    lemma_scan_append(p + m, q);
}

proof fn lemma_run_in_scan(t: Seq<char>)
    ensures
        run_len(t, '`') <= backtick_scan(t).0,
{
    let r = run_len(t, '`');
    lemma_run_prefix(t, '`');
    lemma_scan_run(t.take(r as int));
    lemma_scan_floor(t.take(r as int));
    lemma_scan_sub(t, 0, r as int);
    assert(t.subrange(0, r as int) =~= t.take(r as int));
}

proof fn lemma_run_prefix(t: Seq<char>, c: char)
    ensures
        run_len(t, c) <= t.len(),
        forall|q: int| 0 <= q < run_len(t, c) ==> t[q] == c,
    decreases t.len(),
{
    if t.len() > 0 && t[0] == c {
        lemma_run_prefix(t.drop_first(), c);
        assert forall|q: int| 0 <= q < run_len(t, c) implies t[q] == c by {
            if q > 0 {
                assert(t[q] == t.drop_first()[q - 1]);
            }
        }
    }
}

proof fn lemma_run_at_least(t: Seq<char>, c: char, m: int)
    requires
        0 <= m <= t.len(),
        forall|q: int| 0 <= q < m ==> t[q] == c,
    ensures
        run_len(t, c) >= m,
    decreases m,
{
    if m > 0 {
        assert forall|q: int| 0 <= q < m - 1 implies t.drop_first()[q] == c by {
            assert(t.drop_first()[q] == t[q + 1]);
        }
        lemma_run_at_least(t.drop_first(), c, m - 1);
    }
}

/// A text of backticks only: the scan's current run is all of it.
proof fn lemma_scan_run(t: Seq<char>)
    requires
        forall|q: int| 0 <= q < t.len() ==> t[q] == '`',
    ensures
        backtick_scan(t).1 == t.len(),
    decreases t.len(),
{
    if t.len() > 0 {
        lemma_scan_run(t.drop_last());
    }
}

proof fn lemma_lines_scan(s: Seq<char>, i: int)
    requires
        0 <= i,
    ensures
        forall|k: int|
            0 <= k < lines_from(s, i).len() ==> backtick_scan(#[trigger] lines_from(s, i)[k]).0 <= backtick_scan(
                s,
            ).0,
    decreases s.len() - i,
{
    if i < s.len() {
        let e = line_end(s, i);
        lemma_line_end_bounds(s, i);
        lemma_lines_scan(s, e);
        lemma_scan_sub(s, i, e);
        assert forall|k: int| 0 <= k < lines_from(s, i).len() implies backtick_scan(
            #[trigger] lines_from(s, i)[k],
        ).0 <= backtick_scan(s).0 by {
            if k > 0 {
                assert(lines_from(s, i)[k] == lines_from(s, e)[k - 1]);
            }
        }
    }
}

proof fn lemma_lines_flatten(s: Seq<char>, i: int)
    requires
        0 <= i <= s.len(),
    ensures
        lines_from(s, i).flatten() == s.skip(i),
    decreases s.len() - i,
{
    if i < s.len() {
        let e = line_end(s, i);
        lemma_line_end_bounds(s, i);
        lemma_lines_flatten(s, e);
        let ls = lines_from(s, i);
        assert(ls.drop_first() =~= lines_from(s, e));
        assert(s.subrange(i, e) + s.skip(e) =~= s.skip(i));
    } else {
        assert(s.skip(i) =~= Seq::<char>::empty());
    }
}

proof fn lemma_line_end_shift(a: Seq<char>, b: Seq<char>, j: int)
    requires
        0 <= j <= b.len(),
    ensures
        line_end(a + b, a.len() + j) == a.len() + line_end(b, j),
    decreases b.len() - j,
{
    if j < b.len() {
        assert((a + b)[a.len() + j] == b[j]);
        if b[j] != '\n' {
            lemma_line_end_shift(a, b, j + 1);
        }
    }
}

proof fn lemma_lines_shift(a: Seq<char>, b: Seq<char>, j: int)
    requires
        0 <= j <= b.len(),
    ensures
        lines_from(a + b, a.len() + j) == lines_from(b, j),
    decreases b.len() - j,
{
    if j < b.len() {
        lemma_line_end_shift(a, b, j);
        lemma_line_end_bounds(b, j);
        let e = line_end(b, j);
        lemma_lines_shift(a, b, e);
        assert((a + b).subrange(a.len() + j, a.len() + e) =~= b.subrange(j, e));
    }
}

proof fn lemma_line_end_prefix(a: Seq<char>, b: Seq<char>, i: int)
    requires
        a.len() > 0,
        a.last() == '\n',
        0 <= i < a.len(),
    ensures
        line_end(a + b, i) == line_end(a, i),
    decreases a.len() - i,
{
    assert((a + b)[i] == a[i]);
    if a[i] != '\n' {
        lemma_line_end_prefix(a, b, i + 1);
    }
}

proof fn lemma_lines_prefix(a: Seq<char>, b: Seq<char>, i: int)
    requires
        a.len() > 0,
        a.last() == '\n',
        0 <= i <= a.len(),
    ensures
        lines_from(a + b, i) == lines_from(a, i) + lines_from(b, 0),
    decreases a.len() - i,
{
    if i < a.len() {
        lemma_line_end_prefix(a, b, i);
        lemma_line_end_bounds(a, i);
        let e = line_end(a, i);
        lemma_lines_prefix(a, b, e);
        assert((a + b).subrange(i, e) =~= a.subrange(i, e));
        assert(lines_from(a + b, i) =~= lines_from(a, i) + lines_from(b, 0));
    } else {
        lemma_lines_shift(a, b, 0);
        assert(lines_from(a, i) + lines_from(b, 0) =~= lines_from(b, 0));
    }
}

proof fn lemma_line_end_single(s: Seq<char>, i: int)
    requires
        0 <= i < s.len(),
        s.last() == '\n',
        forall|q: int| i <= q < s.len() - 1 ==> s[q] != '\n',
    ensures
        line_end(s, i) == s.len(),
    decreases s.len() - i,
{
    if s[i] != '\n' {
        lemma_line_end_single(s, i + 1);
    }
}

/// Fenced lines are copied until the fence closes; lines after a
/// closing last line are none.
proof fn lemma_fenced(
    pre: Preprocess,
    page_rel: Seq<char>,
    lines: Seq<Seq<char>>,
    i: int,
    ch: char,
    n: usize,
    depth: u8,
    files: Seq<ReadFile>,
)
    requires
        0 <= i <= lines.len(),
        forall|j: int| i <= j < lines.len() - 1 ==> !spec_is_closing_fence(trim_end_nl(#[trigger] lines[j]), ch, n),
        forall|j: int| i <= j < lines.len() ==> spec_md_include_target(trim(trim_end_nl(#[trigger] lines[j]))) is None,
    ensures
        resolve_lines(pre, page_rel, lines, i, Some((ch, n)), depth, files) == Included::Text(lines.skip(i).flatten()),
    decreases lines.len() - i,
{
    if i < lines.len() {
        let line = lines[i];
        let (f, k, p) = spec_include_step(Some((ch, n)), line, depth);
        assert(k == 0);
        assert(lines.skip(i).drop_first() =~= lines.skip(i + 1));
        assert(lines.skip(i).first() == line);
        assert(lines.skip(i).flatten() == line + lines.skip(i + 1).flatten());
        if i + 1 < lines.len() {
            assert(f == Some((ch, n)));
            lemma_fenced(pre, page_rel, lines, i + 1, ch, n, depth, files);
        } else {
            assert(lines.skip(i + 1) =~= Seq::<Seq<char>>::empty());
            assert(lines.skip(i + 1).flatten() =~= Seq::<char>::empty());
            assert(line + Seq::<char>::empty() =~= line);
        }
    } else {
        assert(lines.skip(i) =~= Seq::<Seq<char>>::empty());
        assert(lines.skip(i).flatten() =~= Seq::<char>::empty());
    }
}

/// The content of a code block: the text, newline-terminated.
pub open spec fn block_body(x: Seq<char>) -> Seq<char> {
    x + (if ends_with(x, "\n"@) {
        Seq::<char>::empty()
    } else {
        "\n"@
    })
}

/// The label part of a code block's opening line.
pub open spec fn label_part(label: Option<Seq<char>>) -> Seq<char> {
    match label {
        Some(l) => " ["@ + l + "]"@,
        None => Seq::empty(),
    }
}

/// The lines of a code block: its opening line, its content's lines, its
/// closing line.
proof fn lemma_block_lines(x: Seq<char>, info: Seq<char>, label: Option<Seq<char>>)
    requires
        !info.contains('\n'),
        label matches Some(l) ==> !l.contains('\n'),
    ensures
        split_lines(spec_code_block(x, info, label)) == seq![spec_fence_marker_for(x) + info + label_part(label) + "\n"@]
            + (split_lines(block_body(x)) + seq![spec_fence_marker_for(x) + "\n"@]),
        spec_code_block(x, info, label) == (spec_fence_marker_for(x) + info + label_part(label) + "\n"@) + (
        block_body(x) + (spec_fence_marker_for(x) + "\n"@)),
{
    reveal_strlit(" [");
    reveal_strlit("]");
    reveal_strlit("\n");
    let block = spec_code_block(x, info, label);
    let marker = spec_fence_marker_for(x);
    let lab = label_part(label);
    let head_text = marker + info + lab;
    let head = head_text + "\n"@;
    let body = block_body(x);
    let tail = marker + "\n"@;
    assert(block =~= head + (body + tail));
    assert forall|q: int| 0 <= q < head.len() - 1 implies head[q] != '\n' by {
        assert(head[q] == head_text[q]);
        if q < marker.len() {
        } else if q < marker.len() + info.len() {
            assert(head_text[q] == info[q - marker.len()]);
        } else {
            match label {
                Some(l) => {
                    let r = q - marker.len() - info.len();
                    assert(head_text[q] == lab[r]);
                    if 2 <= r < 2 + l.len() {
                        assert(lab[r] == l[r - 2]);
                    }
                },
                None => {},
            }
        }
    }
    assert(body.len() > 0 && body.last() == '\n') by {
        if ends_with(x, "\n"@) {
            assert(x.subrange(x.len() - 1, x.len() as int)[0] == x.last());
            assert(body =~= x);
        }
    }
    lemma_lines_prefix(head, body + tail, 0);
    lemma_lines_prefix(body, tail, 0);
    lemma_line_end_single(head, 0);
    lemma_line_end_single(tail, 0);
    assert(lines_from(head, 0) =~= seq![head]) by {
        assert(head.subrange(0, head.len() as int) =~= head);
        assert(lines_from(head, head.len() as int) =~= Seq::<Seq<char>>::empty());
    }
    assert(lines_from(tail, 0) =~= seq![tail]) by {
        assert(tail.subrange(0, tail.len() as int) =~= tail);
        assert(lines_from(tail, tail.len() as int) =~= Seq::<Seq<char>>::empty());
    }
}

/// The opening line opens a fence at least as long as the marker.
proof fn lemma_block_opens(x: Seq<char>, info: Seq<char>, label: Option<Seq<char>>, depth: u8) -> (n: usize)
    requires
        (spec_fence_marker_for(x) + info + label_part(label) + "\n"@).len() <= usize::MAX,
    ensures
        n >= spec_fence_marker_for(x).len(),
        spec_include_step(None, spec_fence_marker_for(x) + info + label_part(label) + "\n"@, depth) == (
            Some(('`', n)),
            0int,
            None::<Seq<char>>,
        ),
{
    let marker = spec_fence_marker_for(x);
    let head = marker + info + label_part(label) + "\n"@;
    lemma_scan_floor(x);
    let k = cut_trim_end_nl(head);
    let bare = trim_end_nl(head);
    assert(k >= marker.len()) by {
        assert(head[marker.len() - 1] == '`');
    }
    assert(bare[0] == '`');
    assert(trim_start(bare) == bare);
    lemma_run_at_least(bare, '`', marker.len() as int);
    lemma_run_prefix(bare, '`');
    let n = run_len(bare, '`') as usize;
    assert(spec_opening_fence(bare) == Some(('`', n)));
    n
}

/// No content line closes the fence, nor does the closing line hold an
/// include.
proof fn lemma_block_content(x: Seq<char>, n: usize)
    requires
        n >= spec_fence_marker_for(x).len(),
    ensures
        forall|j: int|
            0 <= j < split_lines(block_body(x)).len() ==> !spec_is_closing_fence(
                trim_end_nl(#[trigger] split_lines(block_body(x))[j]),
                '`',
                n,
            ),
        spec_md_include_target(trim(trim_end_nl(spec_fence_marker_for(x) + "\n"@))) is None,
{
    reveal_strlit("\n");
    reveal_strlit("<!--@include:");
    let body = block_body(x);
    let marker = spec_fence_marker_for(x);
    lemma_scan_floor(x);
    assert(backtick_scan(body).0 == backtick_scan(x).0) by {
        if !ends_with(x, "\n"@) {
            assert((x + "\n"@).drop_last() =~= x);
            assert((x + "\n"@).last() == '\n');
        } else {
            assert(x.subrange(x.len() - 1, x.len() as int)[0] == x.last());
            assert(body =~= x);
        }
    }
    lemma_lines_scan(body, 0);
    assert forall|j: int| 0 <= j < split_lines(body).len() implies !spec_is_closing_fence(
        trim_end_nl(#[trigger] split_lines(body)[j]),
        '`',
        n,
    ) by {
        let l = split_lines(body)[j];
        let a = cut_trim_end_nl(l);
        let u = trim_end_nl(l);
        let b = cut_trim_start(u);
        let w = trim_start(u);
        let c = cut_trim_end(w);
        let t = trim(u);
        assert(t == w.take(c));
        lemma_scan_sub(w, 0, c);
        assert(w.subrange(0, c) =~= w.take(c));
        lemma_scan_sub(u, b, u.len() as int);
        assert(u.subrange(b, u.len() as int) =~= u.skip(b));
        lemma_scan_sub(l, 0, a);
        assert(l.subrange(0, a) =~= l.take(a));
        lemma_run_in_scan(t);
    }
    let tail = marker + "\n"@;
    assert(tail.drop_last() =~= marker);
    assert(trim_end_nl(tail) == trim_end_nl(marker));
    assert(trim_end_nl(marker) == marker);
    assert(trim_start(marker) == marker);
    assert(trim_end(marker) == marker);
    assert(trim(marker) == marker);
    assert(trim(trim(marker)) == marker);
    let p = "<!--@include:"@;
    assert(!starts_with(marker, p)) by {
        if p.len() <= marker.len() {
            assert(marker.subrange(0, p.len() as int)[0] == marker[0]);
            assert(p[0] == '<');
        }
    }
}

/// A code include's fenced block passes the include pass unchanged when
/// its content holds no markdown include line: its opening marker is
/// longer than any backtick run of the content, so no content line
/// closes the fence. (The pass therefore takes the block as it is.)
pub proof fn law_code_block_passes_unchanged(
    pre: Preprocess,
    page_rel: Seq<char>,
    x: Seq<char>,
    info: Seq<char>,
    label: Option<Seq<char>>,
    depth: u8,
    files: Seq<ReadFile>,
)
    requires
        !info.contains('\n'),
        label matches Some(l) ==> !l.contains('\n'),
        spec_code_block(x, info, label).len() <= usize::MAX,
        forall|j: int|
            0 <= j < split_lines(block_body(x)).len() ==> spec_md_include_target(
                trim(trim_end_nl(#[trigger] split_lines(block_body(x))[j])),
            ) is None,
    ensures
        resolve_lines(pre, page_rel, split_lines(spec_code_block(x, info, label)), 0, None, depth, files)
            == Included::Text(spec_code_block(x, info, label)),
{
    let block = spec_code_block(x, info, label);
    let marker = spec_fence_marker_for(x);
    let head = marker + info + label_part(label) + "\n"@;
    let body = block_body(x);
    let tail = marker + "\n"@;
    let mid = split_lines(body);
    let all = seq![head] + (mid + seq![tail]);
    lemma_block_lines(x, info, label);
    assert(split_lines(block) == all);
    assert(head.len() <= block.len());
    let n = lemma_block_opens(x, info, label, depth);
    lemma_block_content(x, n);
    assert(all[0] == head);
    assert forall|j: int| 1 <= j < all.len() - 1 implies !spec_is_closing_fence(
        trim_end_nl(#[trigger] all[j]),
        '`',
        n,
    ) by {
        assert(all[j] == mid[j - 1]);
    }
    assert forall|j: int| 1 <= j < all.len() implies spec_md_include_target(
        trim(trim_end_nl(#[trigger] all[j])),
    ) is None by {
        if j < all.len() - 1 {
            assert(all[j] == mid[j - 1]);
        } else {
            assert(all[j] == tail);
        }
    }
    lemma_fenced(pre, page_rel, all, 1, '`', n, depth, files);
    assert(all.skip(1) =~= mid + seq![tail]);
    lemma_flatten_concat(mid, seq![tail]);
    lemma_lines_flatten(body, 0);
    assert(body.skip(0) =~= body);
    seq![tail].lemma_flatten_one_element();
}

} // verus!
