//! Markdown preprocessing before the markdown parser — what VitePress
//! does with markdown-it plugins, done as fence-aware line passes:
//!
//! 1. `:::` containers → HTML-block wrappers (an HTML block ends at a
//!    blank line, so the inner content is still parsed as markdown in the
//!    same pass)
//! 2. fence info-string rewriting to the `gdcode` sentinel
//!    (```` ```js{1,3} [npm] ```` → ```` ```gdcode lang=js hl=1,3 label=npm ````)
//! 3. `<Badge>` → `<span class="VPBadge …">`
//!
//! File includes (`<<< @/path`, `<!--@include: file.md-->`) are decided
//! here line by line; reading the files is the caller's part.
//!
//! All passes leave code-fence content untouched: a fence opens on a run
//! of at least three backticks/tildes and closes on a run at least as
//! long; shorter runs inside are literal text.

use vstd::prelude::*;

use crate::text::{
    ends_with_str, starts_with_str, ix, starts_with, starts_with_v,
    split_lines, split_lines_v, spec_to_uppercase, trim_end_nl, trim_end_nl_v, upper_v,
    all_ws, all_ws_from, ends_with, ends_with_v, eq_str, eq_v, push_all, from_chars, is_ws, is_ws_char, push_str,
    run_len, run_len_v, slice_of, to_chars, trim, trim_start, trim_start_v, trim_v,
};

verus! {

broadcast use vstd::string::group_string_axioms;

// ── fence scanning ─────────────────────────────────────────────────────

/// A fence opener: the marker character and the length of its run
/// (leading indentation allowed, info string allowed).
pub open spec fn spec_opening_fence(line: Seq<char>) -> Option<(char, usize)> {
    let t = trim_start(line);
    if t.len() == 0 {
        None
    } else if t[0] != '`' && t[0] != '~' {
        None
    } else if run_len(t, t[0]) >= 3 {
        Some((t[0], run_len(t, t[0]) as usize))
    } else {
        None
    }
}

/// A fence closer for a fence opened with `n` × `ch`: a run of at least
/// `n` markers and nothing else but whitespace.
pub open spec fn spec_is_closing_fence(line: Seq<char>, ch: char, n: usize) -> bool {
    let t = trim(line);
    &&& run_len(t, ch) >= n
    &&& all_ws(t.skip(run_len(t, ch) as int))
}

pub fn opening_fence(line: &Vec<char>) -> (r: Option<(char, usize)>)
    ensures
        r == spec_opening_fence(line@),
{
    let t = trim_start_v(line);
    if t.len() == 0 {
        return None;
    }
    let first = t[0];
    if first != '`' && first != '~' {
        return None;
    }
    let n = run_len_v(&t, first);
    if n >= 3 {
        Some((first, n))
    } else {
        None
    }
}

pub fn is_closing_fence(line: &Vec<char>, ch: char, n: usize) -> (b: bool)
    ensures
        b == spec_is_closing_fence(line@, ch, n),
{
    let t = trim_v(line);
    let count = run_len_v(&t, ch);
    count >= n && all_ws_from(&t, count)
}

// ── container markers ──────────────────────────────────────────────────

/// A closing container marker: three or more colons and nothing else;
/// the number of colons.
pub open spec fn spec_closing_container(t: Seq<char>) -> Option<usize> {
    if run_len(t, ':') >= 3 && all_ws(t.skip(run_len(t, ':') as int)) {
        Some(run_len(t, ':') as usize)
    } else {
        None
    }
}

/// Index of the first whitespace character (the length when none).
pub open spec fn first_ws(s: Seq<char>) -> int
    decreases s.len(),
{
    if s.len() == 0 {
        0
    } else if is_ws(s[0]) {
        0
    } else {
        1 + first_ws(s.drop_first())
    }
}

/// An opening container marker `::: kind rest`: (colons, kind, rest),
/// where `rest` is everything after the whitespace character that ends
/// the kind.
pub open spec fn spec_opening_container(t: Seq<char>) -> Option<(usize, Seq<char>, Seq<char>)> {
    let colons = run_len(t, ':');
    let rest = trim(t.skip(colons as int));
    if colons < 3 || rest.len() == 0 {
        None
    } else {
        let k = first_ws(rest);
        let tail = if k < rest.len() {
            rest.skip(k + 1)
        } else {
            Seq::empty()
        };
        Some((colons as usize, rest.take(k), tail))
    }
}

pub fn closing_container(t: &Vec<char>) -> (r: Option<usize>)
    ensures
        r == spec_closing_container(t@),
{
    let colons = run_len_v(t, ':');
    if colons >= 3 && all_ws_from(t, colons) {
        Some(colons)
    } else {
        None
    }
}

pub proof fn lemma_first_ws_bounds(s: Seq<char>)
    ensures
        0 <= first_ws(s) <= s.len(),
        forall|j: int| 0 <= j < first_ws(s) ==> !is_ws(#[trigger] s[j]),
        first_ws(s) < s.len() ==> is_ws(s[first_ws(s)]),
    decreases s.len(),
{
    if s.len() > 0 && !is_ws(s[0]) {
        lemma_first_ws_bounds(s.drop_first());
        assert forall|j: int| 0 <= j < first_ws(s) implies !is_ws(#[trigger] s[j]) by {
            if j > 0 {
                assert(s[j] == s.drop_first()[j - 1]);
            }
        }
    }
}

proof fn lemma_first_ws_unique(s: Seq<char>, k: int)
    requires
        0 <= k <= s.len(),
        forall|j: int| 0 <= j < k ==> !is_ws(#[trigger] s[j]),
        k < s.len() ==> is_ws(s[k]),
    ensures
        first_ws(s) == k,
    decreases s.len(),
{
    if s.len() > 0 && k > 0 {
        assert forall|j: int| 0 <= j < k - 1 implies !is_ws(#[trigger] s.drop_first()[j]) by {
            assert(s.drop_first()[j] == s[j + 1]);
        }
        lemma_first_ws_unique(s.drop_first(), k - 1);
    }
}

/// Position of the first whitespace character of `v` (its length when none).
pub fn first_ws_v(v: &Vec<char>) -> (k: usize)
    ensures
        k == first_ws(v@),
{
    let mut i: usize = 0;
    while i < v.len() && !is_ws_char(v[i])
        invariant
            i <= v.len(),
            forall|j: int| 0 <= j < i ==> !is_ws(#[trigger] v@[j]),
        decreases v.len() - i,
    {
        i += 1;
    }
    proof {
        lemma_first_ws_unique(v@, i as int);
    }
    i
}

pub fn opening_container(t: &Vec<char>) -> (r: Option<(usize, Vec<char>, Vec<char>)>)
    ensures
        match r {
            Some((c, kind, tail)) => spec_opening_container(t@) == Some((c, kind@, tail@)),
            None => spec_opening_container(t@) is None,
        },
{
    let colons = run_len_v(t, ':');
    if colons < 3 {
        return None;
    }
    let after = slice_of(t, colons, t.len());
    assert(after@ =~= t@.skip(colons as int));
    let rest = trim_v(&after);
    if rest.len() == 0 {
        return None;
    }
    let k = first_ws_v(&rest);
    proof {
        lemma_first_ws_bounds(rest@);
    }
    let kind = slice_of(&rest, 0, k);
    assert(kind@ =~= rest@.take(k as int));
    let tail = if k < rest.len() {
        let x = slice_of(&rest, k + 1, rest.len());
        assert(x@ =~= rest@.skip(k + 1));
        x
    } else {
        Vec::new()
    };
    proof {
        if k >= rest.len() {
            assert(tail@ =~= Seq::<char>::empty());
        }
    }
    Some((colons, kind, tail))
}

// ── container titles ───────────────────────────────────────────────────

/// `TITLE {no-title}` → (no_title, custom title).
pub open spec fn spec_parse_tip_rest(rest: Seq<char>) -> (bool, Option<Seq<char>>) {
    if ends_with(rest, "{no-title}"@) {
        let title = trim(rest.take(rest.len() - "{no-title}"@.len()));
        (true, if title.len() > 0 { Some(title) } else { None })
    } else {
        (false, if rest.len() > 0 { Some(rest) } else { None })
    }
}

pub fn parse_tip_rest(rest: &Vec<char>) -> (r: (bool, Option<Vec<char>>))
    ensures
        r.0 == spec_parse_tip_rest(rest@).0,
        match r.1 {
            Some(t) => spec_parse_tip_rest(rest@).1 == Some(t@),
            None => spec_parse_tip_rest(rest@).1 is None,
        },
{
    let suffix = to_chars("{no-title}");
    if ends_with_v(rest, &suffix) {
        let stripped = slice_of(rest, 0, rest.len() - suffix.len());
        assert(stripped@ =~= rest@.take(rest@.len() - "{no-title}"@.len()));
        let title = trim_v(&stripped);
        if title.len() > 0 {
            (true, Some(title))
        } else {
            (true, None)
        }
    } else if rest.len() > 0 {
        (false, Some(rest.clone()))
    } else {
        (false, None)
    }
}

/// `s` occurs in `t` at position `i`.
pub open spec fn occurs_at(t: Seq<char>, s: Seq<char>, i: int) -> bool {
    0 <= i && i + s.len() <= t.len() && t.subrange(i, i + s.len()) == s
}

/// `t.contains(s)`.
pub open spec fn contains_seq(t: Seq<char>, s: Seq<char>) -> bool {
    exists|i: int| occurs_at(t, s, i)
}

/// Index of the last occurrence of `c` (`rfind`), or -1.
pub open spec fn last_index_of(s: Seq<char>, c: char) -> int
    decreases s.len(),
{
    if s.len() == 0 {
        -1
    } else if s.last() == c {
        s.len() - 1
    } else {
        last_index_of(s.drop_last(), c)
    }
}

/// `SUMMARY [{open}]` → (summary, open); a brace group mentioning
/// `open` marks the block open. No summary → "Details".
pub open spec fn spec_parse_details_rest(rest: Seq<char>) -> (Seq<char>, bool) {
    let i = last_index_of(rest, '{');
    if rest.len() > 0 && rest.last() == '}' && i >= 0 && contains_seq(
        trim(rest.subrange(i + 1, rest.len() - 1)),
        "open"@,
    ) {
        (trim(rest.take(i)), true)
    } else if rest.len() == 0 {
        ("Details"@, false)
    } else {
        (rest, false)
    }
}

pub proof fn lemma_last_index_of(s: Seq<char>, c: char)
    ensures
        -1 <= last_index_of(s, c) < s.len(),
        last_index_of(s, c) >= 0 ==> s[last_index_of(s, c)] == c,
        forall|j: int| last_index_of(s, c) < j < s.len() ==> #[trigger] s[j] != c,
    decreases s.len(),
{
    if s.len() > 0 && s.last() != c {
        lemma_last_index_of(s.drop_last(), c);
        assert forall|j: int| last_index_of(s, c) < j < s.len() implies #[trigger] s[j] != c by {
            if j < s.len() - 1 {
                assert(s[j] == s.drop_last()[j]);
            }
        }
    }
}

proof fn lemma_last_index_of_unique(s: Seq<char>, c: char, k: int)
    requires
        -1 <= k < s.len(),
        k >= 0 ==> s[k] == c,
        forall|j: int| k < j < s.len() ==> #[trigger] s[j] != c,
    ensures
        last_index_of(s, c) == k,
    decreases s.len(),
{
    if s.len() > 0 && k < s.len() - 1 {
        assert(s.last() != c);
        lemma_last_index_of_unique(s.drop_last(), c, k);
    }
}

/// `s.rfind(c)` as a position, or -1 when absent.
pub fn last_index_of_v(s: &Vec<char>, c: char) -> (r: Option<usize>)
    ensures
        match r {
            Some(i) => last_index_of(s@, c) == i,
            None => last_index_of(s@, c) == -1,
        },
{
    let mut i: usize = s.len();
    while i > 0 && s[i - 1] != c
        invariant
            i <= s.len(),
            forall|j: int| i <= j < s.len() ==> #[trigger] s@[j] != c,
        decreases i,
    {
        i -= 1;
    }
    proof {
        lemma_last_index_of_unique(s@, c, i - 1);
    }
    if i == 0 {
        None
    } else {
        Some(i - 1)
    }
}

/// `t.contains(s)`.
pub fn contains_v(t: &Vec<char>, s: &Vec<char>) -> (b: bool)
    ensures
        b == contains_seq(t@, s@),
{
    if s.len() > t.len() {
        assert forall|i: int| !occurs_at(t@, s@, i) by {}
        return false;
    }
    if s.len() == 0 {
        assert(t@.subrange(0, 0) =~= s@);
        assert(occurs_at(t@, s@, 0));
        return true;
    }
    let mut i: usize = 0;
    while i <= t.len() - s.len()
        invariant
            0 < s.len() <= t.len(),
            i <= t.len() - s.len() + 1,
            forall|j: int| 0 <= j < i ==> !occurs_at(t@, s@, j),
        decreases t.len() - s.len() + 1 - i,
    {
        let piece = slice_of(t, i, i + s.len());
        if eq_v(&piece, s) {
            assert(occurs_at(t@, s@, i as int));
            return true;
        }
        i += 1;
    }
    assert forall|j: int| !occurs_at(t@, s@, j) by {
        if 0 <= j < i {
        }
    }
    false
}

pub fn parse_details_rest(rest: &Vec<char>) -> (r: (Vec<char>, bool))
    ensures
        (r.0@, r.1) == spec_parse_details_rest(rest@),
{
    let li = last_index_of_v(rest, '{');
    proof {
        lemma_last_index_of(rest@, '{');
    }
    if rest.len() > 0 && rest[rest.len() - 1] == '}' {
        if let Some(i) = li {
            if i + 1 <= rest.len() - 1 {
                let inner = slice_of(rest, i + 1, rest.len() - 1);
                let attr = trim_v(&inner);
                let open = to_chars("open");
                if contains_v(&attr, &open) {
                    let head = slice_of(rest, 0, i);
                    assert(head@ =~= rest@.take(i as int));
                    return (trim_v(&head), true);
                }
            } else {
                // the `{` is the closing `}` itself: impossible
                assert(false);
            }
        }
    }
    if rest.len() == 0 {
        (to_chars("Details"), false)
    } else {
        (rest.clone(), false)
    }
}

// ── HTML escaping ──────────────────────────────────────────────────────

pub open spec fn escape_char(c: char) -> Seq<char> {
    if c == '&' {
        "&amp;"@
    } else if c == '<' {
        "&lt;"@
    } else if c == '>' {
        "&gt;"@
    } else if c == '"' {
        "&quot;"@
    } else {
        seq![c]
    }
}

/// Text escaped for HTML element content and double-quoted attributes.
pub open spec fn escape_seq(s: Seq<char>) -> Seq<char>
    decreases s.len(),
{
    if s.len() == 0 {
        Seq::empty()
    } else {
        escape_seq(s.drop_last()) + escape_char(s.last())
    }
}

/// Appends the escaped form of `s` to `out`.
pub fn push_escaped(out: &mut Vec<char>, s: &Vec<char>)
    ensures
        final(out)@ == old(out)@ + escape_seq(s@),
{
    let mut i: usize = 0;
    assert(s@.take(0) =~= Seq::<char>::empty());
    while i < s.len()
        invariant
            i <= s.len(),
            out@ == old(out)@ + escape_seq(s@.take(i as int)),
        decreases s.len() - i,
    {
        let c = s[i];
        if c == '&' {
            push_str(out, "&amp;");
        } else if c == '<' {
            push_str(out, "&lt;");
        } else if c == '>' {
            push_str(out, "&gt;");
        } else if c == '"' {
            push_str(out, "&quot;");
        } else {
            out.push(c);
            assert(seq![c] =~= escape_char(c));
        }
        proof {
            assert(s@.take(i + 1).drop_last() =~= s@.take(i as int));
            assert(s@.take(i + 1).last() == c);
        }
        i += 1;
    }
    assert(s@.take(s.len() as int) =~= s@);
}

/// `&`, `<`, `>`, `"` → entities.
pub fn escape_text(s: &str) -> (r: String)
    ensures
        r@ == escape_seq(s@),
{
    let v = to_chars(s);
    let mut out: Vec<char> = Vec::new();
    push_escaped(&mut out, &v);
    assert(out@ =~= escape_seq(s@));
    from_chars(&out)
}


// ── pass: `:::` containers ─────────────────────────────────────────────

/// A container still open while scanning.
#[derive(Clone, Copy, PartialEq, Eq, Debug)]
pub enum OpenContainer {
    /// `tip`/`warning`/… and custom kinds: `<div class="custom-block KIND">`.
    Tip,
    /// `details`: `<details class="custom-block details">`.
    Details,
    /// `code-group`: the tab wrapper.
    CodeGroup,
    /// `v-pre`: markers vanish, content passes through.
    VPre,
    /// `raw`: a plain `<div class="vp-raw">` wrapper.
    Raw,
}

/// Lines emitted (each followed by a newline) when a container closes.
pub open spec fn close_markup(o: OpenContainer) -> Seq<char> {
    match o {
        OpenContainer::Tip => "\n</div>\n\n"@,
        OpenContainer::Details => "\n</details>\n\n"@,
        OpenContainer::CodeGroup => "\n</div>\n</div>\n\n"@,
        OpenContainer::VPre => Seq::empty(),
        OpenContainer::Raw => "\n</div>\n\n"@,
    }
}

/// Lines emitted when a container opens (`kind`, with the rest of the
/// marker line already trimmed), and the stack entry it pushes.
pub open spec fn open_markup(kind: Seq<char>, rest: Seq<char>) -> (Seq<char>, OpenContainer) {
    if kind == "v-pre"@ {
        (Seq::empty(), OpenContainer::VPre)
    } else if kind == "raw"@ {
        ("<div class=\"vp-raw\">\n\n"@, OpenContainer::Raw)
    } else if kind == "code-group"@ {
        ("<div class=\"vp-code-group\">\n<div class=\"blocks\">\n\n"@, OpenContainer::CodeGroup)
    } else if kind == "details"@ {
        let (summary, open) = spec_parse_details_rest(rest);
        (
            "<details class=\"custom-block details\""@ + (if open {
                " open"@
            } else {
                Seq::empty()
            }) + ">\n<summary>"@ + escape_seq(summary) + "</summary>\n\n"@,
            OpenContainer::Details,
        )
    } else {
        let (no_title, title) = spec_parse_tip_rest(rest);
        let title_line = if no_title {
            Seq::empty()
        } else {
            "<p class=\"custom-block-title\">"@ + escape_seq(
                match title {
                    Some(t) => t,
                    None => spec_to_uppercase(kind),
                },
            ) + "</p>\n"@
        };
        ("<div class=\"custom-block "@ + kind + "\">\n"@ + title_line + "\n"@, OpenContainer::Tip)
    }
}

/// Scanner state: output so far, open containers (colons, kind), and
/// the code fence being skipped.
pub type ContainerScan = (Seq<char>, Seq<(usize, OpenContainer)>, Option<(char, usize)>);

/// One line (without its newline) through the container pass.
pub open spec fn container_step(st: ContainerScan, bare: Seq<char>) -> ContainerScan {
    let (out, stack, fence) = st;
    let copied = out + bare + "\n"@;
    match fence {
        Some((ch, n)) => (
            copied,
            stack,
            if spec_is_closing_fence(bare, ch, n) {
                None
            } else {
                fence
            },
        ),
        None => match spec_opening_fence(bare) {
            Some(f) => (copied, stack, Some(f)),
            None => {
                let t = trim(bare);
                match spec_closing_container(t) {
                    Some(colons) => if stack.len() > 0 && colons >= stack.last().0 {
                        (out + close_markup(stack.last().1), stack.drop_last(), None)
                    } else {
                        (copied, stack, None)
                    },
                    None => match spec_opening_container(t) {
                        Some((colons, kind, tail)) => {
                            let (markup, o) = open_markup(kind, trim(tail));
                            (out + markup, stack.push((colons, o)), None)
                        },
                        None => (copied, stack, None),
                    },
                }
            },
        },
    }
}

/// The container pass over the first `lines.len()` lines.
pub open spec fn container_fold(lines: Seq<Seq<char>>) -> ContainerScan
    decreases lines.len(),
{
    if lines.len() == 0 {
        (Seq::empty(), Seq::empty(), None)
    } else {
        container_step(container_fold(lines.drop_last()), lines.last())
    }
}

/// Containers left open at the end close innermost first.
pub open spec fn close_all(out: Seq<char>, stack: Seq<(usize, OpenContainer)>) -> Seq<char>
    decreases stack.len(),
{
    if stack.len() == 0 {
        out
    } else {
        close_all(out + close_markup(stack.last().1), stack.drop_last())
    }
}

/// The lines of `md` without their line terminators.
pub open spec fn bare_lines(md: Seq<char>) -> Seq<Seq<char>> {
    split_lines(md).map_values(|l: Seq<char>| trim_end_nl(l))
}

/// The whole container pass: every line is copied (followed by `\n`)
/// except container markers, which become HTML wrapper lines; the
/// result always ends with a newline.
pub open spec fn spec_expand_containers(md: Seq<char>) -> Seq<char> {
    let st = container_fold(bare_lines(md));
    let out = close_all(st.0, st.1);
    if out.len() == 0 {
        "\n"@
    } else {
        out
    }
}

fn emit_open(out: &mut Vec<char>, kind: &Vec<char>, rest: &Vec<char>) -> (o: OpenContainer)
    ensures
        (final(out)@, o) == ({
            let (m, oc) = open_markup(kind@, rest@);
            (old(out)@ + m, oc)
        }),
{
    if eq_str(kind, "v-pre") {
        assert(out@ =~= old(out)@ + Seq::<char>::empty());
        OpenContainer::VPre
    } else if eq_str(kind, "raw") {
        push_str(out, "<div class=\"vp-raw\">\n\n");
        OpenContainer::Raw
    } else if eq_str(kind, "code-group") {
        push_str(out, "<div class=\"vp-code-group\">\n<div class=\"blocks\">\n\n");
        OpenContainer::CodeGroup
    } else if eq_str(kind, "details") {
        let (summary, open) = parse_details_rest(rest);
        push_str(out, "<details class=\"custom-block details\"");
        let ghost a = out@;
        if open {
            push_str(out, " open");
        }
        let ghost b = out@;
        push_str(out, ">\n<summary>");
        push_escaped(out, &summary);
        push_str(out, "</summary>\n\n");
        proof {
            if open {
                assert(b == a + " open"@);
            } else {
                assert(b =~= a + Seq::<char>::empty());
            }
            assert(out@ =~= old(out)@ + ("<details class=\"custom-block details\""@ + (if open {
                " open"@
            } else {
                Seq::empty()
            }) + ">\n<summary>"@ + escape_seq(summary@) + "</summary>\n\n"@));
        }
        OpenContainer::Details
    } else {
        let (no_title, title) = parse_tip_rest(rest);
        push_str(out, "<div class=\"custom-block ");
        push_all(out, kind);
        push_str(out, "\">\n");
        let ghost a = out@;
        if !no_title {
            let t = match title {
                Some(t) => t,
                None => upper_v(kind),
            };
            push_str(out, "<p class=\"custom-block-title\">");
            push_escaped(out, &t);
            push_str(out, "</p>\n");
        }
        let ghost b = out@;
        push_str(out, "\n");
        proof {
            let (nt, ti) = spec_parse_tip_rest(rest@);
            let title_line = if nt {
                Seq::empty()
            } else {
                "<p class=\"custom-block-title\">"@ + escape_seq(
                    match ti {
                        Some(t) => t,
                        None => spec_to_uppercase(kind@),
                    },
                ) + "</p>\n"@
            };
            assert(b =~= a + title_line);
            assert(out@ =~= old(out)@ + ("<div class=\"custom-block "@ + kind@ + "\">\n"@
                + title_line + "\n"@));
        }
        OpenContainer::Tip
    }
}

fn emit_close(out: &mut Vec<char>, o: OpenContainer)
    ensures
        final(out)@ == old(out)@ + close_markup(o),
{
    match o {
        OpenContainer::Tip => push_str(out, "\n</div>\n\n"),
        OpenContainer::Details => push_str(out, "\n</details>\n\n"),
        OpenContainer::CodeGroup => push_str(out, "\n</div>\n</div>\n\n"),
        OpenContainer::VPre => {
            assert(out@ =~= old(out)@ + Seq::<char>::empty());
        },
        OpenContainer::Raw => push_str(out, "\n</div>\n\n"),
    }
}

fn container_line(
    out: &mut Vec<char>,
    stack: &mut Vec<(usize, OpenContainer)>,
    fence: &mut Option<(char, usize)>,
    bare: &Vec<char>,
)
    ensures
        (final(out)@, final(stack)@, *final(fence)) == container_step(
            (old(out)@, old(stack)@, *old(fence)),
            bare@,
        ),
{
    if let Some((ch, n)) = *fence {
        push_all(out, bare);
        push_str(out, "\n");
        if is_closing_fence(bare, ch, n) {
            *fence = None;
        }
        return;
    }
    if let Some(f) = opening_fence(bare) {
        push_all(out, bare);
        push_str(out, "\n");
        *fence = Some(f);
        return;
    }
    let t = trim_v(bare);
    if let Some(colons) = closing_container(&t) {
        if stack.len() > 0 && colons >= stack[stack.len() - 1].0 {
            let top = stack.pop().unwrap();
            emit_close(out, top.1);
            return;
        }
        push_all(out, bare);
        push_str(out, "\n");
        return;
    }
    if let Some((colons, kind, tail)) = opening_container(&t) {
        let rest = trim_v(&tail);
        let o = emit_open(out, &kind, &rest);
        stack.push((colons, o));
        return;
    }
    push_all(out, bare);
    push_str(out, "\n");
}

/// Pass: `:::` containers → HTML wrappers. Markers inside code fences
/// stay literal; containers still open at the end are closed.
pub fn expand_containers(md: &str) -> (r: String)
    ensures
        r@ == spec_expand_containers(md@),
{
    let v = to_chars(md);
    let lines = split_lines_v(&v);
    let ghost blines = bare_lines(v@);
    let mut out: Vec<char> = Vec::new();
    let mut stack: Vec<(usize, OpenContainer)> = Vec::new();
    let mut fence: Option<(char, usize)> = None;
    let mut i: usize = 0;
    assert(blines.take(0) =~= Seq::<Seq<char>>::empty());
    while i < lines.len()
        invariant
            i <= lines.len(),
            lines.len() == blines.len(),
            blines == bare_lines(v@),
            forall|k: int| 0 <= k < lines.len() ==> (#[trigger] lines@[k])@ == split_lines(v@)[k],
            (out@, stack@, fence) == container_fold(blines.take(i as int)),
        decreases lines.len() - i,
    {
        let bare = trim_end_nl_v(&lines[i]);
        assert(bare@ == blines[i as int]);
        container_line(&mut out, &mut stack, &mut fence, &bare);
        proof {
            assert(blines.take(i + 1).drop_last() =~= blines.take(i as int));
        }
        i += 1;
    }
    assert(blines.take(lines.len() as int) =~= blines);
    let ghost before = out@;
    while stack.len() > 0
        invariant
            close_all(out@, stack@) == close_all(before, container_fold(blines).1),
        decreases stack.len(),
    {
        let top = stack.pop().unwrap();
        emit_close(&mut out, top.1);
    }
    if out.len() == 0 {
        push_str(&mut out, "\n");
    }
    from_chars(&out)
}


// ── pass: fence info strings ───────────────────────────────────────────

/// Index of the first `c` at or after `i`, or -1.
pub open spec fn find_from(s: Seq<char>, c: char, i: int) -> int
    decreases s.len() - i,
{
    if i < 0 || i >= s.len() {
        -1
    } else if s[i] == c {
        i
    } else {
        find_from(s, c, i + 1)
    }
}

/// Index of the first occurrence of `p` at or after `i`, or -1.
pub open spec fn find_seq_from(s: Seq<char>, p: Seq<char>, i: int) -> int
    decreases s.len() + 1 - i,
{
    if i < 0 || i + p.len() > s.len() {
        -1
    } else if occurs_at(s, p, i) {
        i
    } else {
        find_seq_from(s, p, i + 1)
    }
}

/// `s` without its whitespace characters.
pub open spec fn remove_ws(s: Seq<char>) -> Seq<char>
    decreases s.len(),
{
    if s.len() == 0 {
        Seq::empty()
    } else if is_ws(s.last()) {
        remove_ws(s.drop_last())
    } else {
        remove_ws(s.drop_last()).push(s.last())
    }
}

pub open spec fn is_line_spec_char(c: char) -> bool {
    ('0' <= c && c <= '9') || c == ',' || c == '-'
}

/// `s[..i] + " " + s[j+1..]`: a bracketed group replaced by one space.
pub open spec fn cut_group(s: Seq<char>, i: int, j: int) -> Seq<char> {
    s.take(i) + " "@ + s.skip(j + 1)
}

/// The first whitespace-separated token (`split_whitespace().next()`).
pub open spec fn first_token(s: Seq<char>) -> Seq<char> {
    trim_start(s).take(first_ws(trim_start(s)))
}

/// Repeatedly strips a trailing `:line-numbers` / `:no-line-numbers`.
pub open spec fn strip_ln_suffixes(s: Seq<char>) -> Seq<char>
    decreases s.len(),
{
    if s.len() >= 13 && ends_with(s, ":line-numbers"@) {
        strip_ln_suffixes(s.take(s.len() - 13))
    } else if s.len() >= 16 && ends_with(s, ":no-line-numbers"@) {
        strip_ln_suffixes(s.take(s.len() - 16))
    } else {
        s
    }
}

/// Trailing run of `c` removed.
pub open spec fn trim_end_char(s: Seq<char>, c: char) -> Seq<char>
    decreases s.len(),
{
    if s.len() > 0 && s.last() == c {
        trim_end_char(s.drop_last(), c)
    } else {
        s
    }
}

/// `trim_matches(':')`.
pub open spec fn trim_colons(s: Seq<char>) -> Seq<char> {
    trim_end_char(s.skip(run_len(s, ':') as int), ':')
}

/// The `[label]` group: (label, info with the group cut out).
pub open spec fn info_label(info: Seq<char>) -> (Option<Seq<char>>, Seq<char>) {
    let i = find_from(info, '[', 0);
    let j = find_from(info, ']', i);
    if i >= 0 && j >= 0 {
        (Some(info.subrange(i + 1, j)), cut_group(info, i, j))
    } else {
        (None, info)
    }
}

/// The `{1,3-4}` group when it looks like a line spec: (spec, rest).
pub open spec fn info_hl(rest: Seq<char>) -> (Option<Seq<char>>, Seq<char>) {
    let i = find_from(rest, '{', 0);
    let j = find_from(rest, '}', i);
    if i >= 0 && j >= 0 {
        let compact = remove_ws(rest.subrange(i + 1, j));
        if compact.len() > 0 && (forall|k: int|
            0 <= k < compact.len() ==> is_line_spec_char(#[trigger] compact[k])) {
            (Some(compact), cut_group(rest, i, j))
        } else {
            (None, rest)
        }
    } else {
        (None, rest)
    }
}

/// The language token: first word, line-number suffixes stripped,
/// surrounding colons trimmed.
pub open spec fn info_lang(rest: Seq<char>) -> Seq<char> {
    let lang = strip_ln_suffixes(first_token(rest));
    let k = find_seq_from(lang, ":line-numbers="@, 0);
    let lang = if k >= 0 {
        lang.take(k)
    } else {
        lang
    };
    trim_colons(lang)
}

/// `` js{1,3-4} [npm] `` → `` gdcode lang=js hl=1,3-4 label=npm ``.
pub open spec fn spec_rewrite_info(info: Seq<char>) -> Seq<char> {
    if info.len() == 0 {
        "gdcode"@
    } else {
        let (label, rest) = info_label(info);
        let (hl, rest) = info_hl(rest);
        "gdcode lang="@ + info_lang(rest) + match hl {
            Some(h) => " hl="@ + h,
            None => Seq::empty(),
        } + match label {
            Some(l) => " label="@ + l,
            None => Seq::empty(),
        }
    }
}

pub proof fn lemma_find_from(s: Seq<char>, c: char, i: int)
    requires
        0 <= i,
    ensures
        find_from(s, c, i) == -1 || (i <= find_from(s, c, i) < s.len() && s[find_from(s, c, i)]
            == c),
        forall|k: int|
            i <= k < s.len() && (find_from(s, c, i) == -1 || k < find_from(s, c, i)) ==> #[trigger] s[k]
                != c,
    decreases s.len() - i,
{
    if i < s.len() && s[i] != c {
        lemma_find_from(s, c, i + 1);
    }
}

pub proof fn lemma_find_from_unique(s: Seq<char>, c: char, i: int, k: int)
    requires
        0 <= i,
        k == -1 || (i <= k < s.len() && s[k] == c),
        forall|m: int| i <= m < s.len() && (k == -1 || m < k) ==> #[trigger] s[m] != c,
    ensures
        find_from(s, c, i) == k,
    decreases s.len() - i,
{
    if i < s.len() && s[i] != c {
        lemma_find_from_unique(s, c, i + 1, k);
    }
}

/// First index of `c` at or after `from`.
pub fn find_from_v(s: &Vec<char>, c: char, from: usize) -> (r: Option<usize>)
    ensures
        match r {
            Some(k) => find_from(s@, c, from as int) == k,
            None => find_from(s@, c, from as int) == -1,
        },
{
    let mut k: usize = from;
    while k < s.len() && s[k] != c
        invariant
            from <= k,
            forall|m: int| from <= m < k && m < s.len() ==> #[trigger] s@[m] != c,
        decreases s.len() - k,
    {
        k += 1;
    }
    if k < s.len() {
        proof {
            lemma_find_from_unique(s@, c, from as int, k as int);
        }
        Some(k)
    } else {
        proof {
            lemma_find_from_unique(s@, c, from as int, -1);
        }
        None
    }
}

proof fn lemma_find_seq_from_unique(s: Seq<char>, p: Seq<char>, i: int, k: int)
    requires
        0 <= i,
        k == -1 || (i <= k && occurs_at(s, p, k)),
        forall|m: int| i <= m && (k == -1 || m < k) ==> !#[trigger] occurs_at(s, p, m),
    ensures
        find_seq_from(s, p, i) == k,
    decreases s.len() + 1 - i,
{
    if i + p.len() <= s.len() && !occurs_at(s, p, i) {
        lemma_find_seq_from_unique(s, p, i + 1, k);
    }
}

pub proof fn lemma_find_seq_from(s: Seq<char>, p: Seq<char>, i: int)
    requires
        0 <= i,
    ensures
        find_seq_from(s, p, i) == -1 || (i <= find_seq_from(s, p, i) && occurs_at(
            s,
            p,
            find_seq_from(s, p, i),
        )),
    decreases s.len() + 1 - i,
{
    if i + p.len() <= s.len() && !occurs_at(s, p, i) {
        lemma_find_seq_from(s, p, i + 1);
    }
}

/// First index where `p` occurs.
pub fn find_seq_v(s: &Vec<char>, p: &Vec<char>) -> (r: Option<usize>)
    ensures
        match r {
            Some(k) => find_seq_from(s@, p@, 0) == k,
            None => find_seq_from(s@, p@, 0) == -1,
        },
{
    if p.len() > s.len() {
        proof {
            lemma_find_seq_from_unique(s@, p@, 0, -1);
        }
        return None;
    }
    let mut k: usize = 0;
    while k <= s.len() - p.len()
        invariant
            p.len() <= s.len(),
            k <= s.len() - p.len() + 1,
            forall|m: int| 0 <= m < k ==> !#[trigger] occurs_at(s@, p@, m),
        decreases s.len() - p.len() + 1 - k,
    {
        let piece = slice_of(s, k, k + p.len());
        if eq_v(&piece, p) {
            proof {
                lemma_find_seq_from_unique(s@, p@, 0, k as int);
            }
            return Some(k);
        }
        if k == s.len() - p.len() {
            proof {
                assert forall|m: int| 0 <= m implies !#[trigger] occurs_at(s@, p@, m) by {
                    if m > k {
                    }
                }
                lemma_find_seq_from_unique(s@, p@, 0, -1);
            }
            return None;
        }
        k += 1;
    }
    proof {
        lemma_find_seq_from_unique(s@, p@, 0, -1);
    }
    None
}

proof fn lemma_remove_ws_take(s: Seq<char>, i: int)
    requires
        0 <= i < s.len(),
    ensures
        remove_ws(s.take(i + 1)) == if is_ws(s[i]) {
            remove_ws(s.take(i))
        } else {
            remove_ws(s.take(i)).push(s[i])
        },
{
    assert(s.take(i + 1).drop_last() =~= s.take(i));
}

fn remove_ws_v(s: &Vec<char>) -> (r: Vec<char>)
    ensures
        r@ == remove_ws(s@),
{
    let mut r: Vec<char> = Vec::new();
    let mut i: usize = 0;
    assert(s@.take(0) =~= Seq::<char>::empty());
    while i < s.len()
        invariant
            i <= s.len(),
            r@ == remove_ws(s@.take(i as int)),
        decreases s.len() - i,
    {
        proof {
            lemma_remove_ws_take(s@, i as int);
        }
        if !is_ws_char(s[i]) {
            r.push(s[i]);
        }
        i += 1;
    }
    assert(s@.take(s.len() as int) =~= s@);
    r
}

fn cut_group_v(s: &Vec<char>, i: usize, j: usize) -> (r: Vec<char>)
    requires
        i <= j < s.len(),
    ensures
        r@ == cut_group(s@, i as int, j as int),
{
    proof {
        reveal_strlit(" ");
    }
    let mut r = slice_of(s, 0, i);
    r.push(' ');
    let tail = slice_of(s, j + 1, s.len());
    push_all(&mut r, &tail);
    assert(r@ =~= cut_group(s@, i as int, j as int));
    r
}

fn info_label_v(info: &Vec<char>) -> (r: (Option<Vec<char>>, Vec<char>))
    ensures
        ({
            let (l, rest) = info_label(info@);
            &&& rest == r.1@
            &&& match r.0 {
                Some(x) => l == Some(x@),
                None => l is None,
            }
        }),
{
    proof {
        lemma_find_from(info@, '[', 0);
    }
    match find_from_v(info, '[', 0) {
        Some(i) => {
            proof {
                lemma_find_from(info@, ']', i as int);
            }
            match find_from_v(info, ']', i) {
                Some(j) => {
                    assert(i < j) by {
                        assert(info@[i as int] == '[');
                    }
                    let label = slice_of(info, i + 1, j);
                    (Some(label), cut_group_v(info, i, j))
                },
                None => (None, info.clone()),
            }
        },
        None => (None, info.clone()),
    }
}

fn info_hl_v(rest: &Vec<char>) -> (r: (Option<Vec<char>>, Vec<char>))
    ensures
        ({
            let (h, rest2) = info_hl(rest@);
            &&& rest2 == r.1@
            &&& match r.0 {
                Some(x) => h == Some(x@),
                None => h is None,
            }
        }),
{
    proof {
        lemma_find_from(rest@, '{', 0);
    }
    match find_from_v(rest, '{', 0) {
        Some(i) => {
            proof {
                lemma_find_from(rest@, '}', i as int);
            }
            match find_from_v(rest, '}', i) {
                Some(j) => {
                    assert(i < j) by {
                        assert(rest@[i as int] == '{');
                    }
                    let inner = slice_of(rest, i + 1, j);
                    let compact = remove_ws_v(&inner);
                    let mut ok = compact.len() > 0;
                    let mut k: usize = 0;
                    while k < compact.len()
                        invariant
                            k <= compact.len(),
                            ok == (compact.len() > 0 && forall|m: int|
                                0 <= m < k ==> is_line_spec_char(#[trigger] compact@[m])),
                        decreases compact.len() - k,
                    {
                        let c = compact[k];
                        if !(('0' <= c && c <= '9') || c == ',' || c == '-') {
                            ok = false;
                        }
                        k += 1;
                    }
                    if ok {
                        (Some(compact), cut_group_v(rest, i, j))
                    } else {
                        (None, rest.clone())
                    }
                },
                None => (None, rest.clone()),
            }
        },
        None => (None, rest.clone()),
    }
}

fn strip_ln_suffixes_v(s: &Vec<char>) -> (r: Vec<char>)
    ensures
        r@ == strip_ln_suffixes(s@),
{
    let mut cur = s.clone();
    let a = to_chars(":line-numbers");
    let b = to_chars(":no-line-numbers");
    proof {
        reveal_strlit(":line-numbers");
        reveal_strlit(":no-line-numbers");
    }
    loop
        invariant
            strip_ln_suffixes(cur@) == strip_ln_suffixes(s@),
            a@ == ":line-numbers"@,
            b@ == ":no-line-numbers"@,
            a.len() == 13,
            b.len() == 16,
        decreases cur.len(),
    {
        if ends_with_v(&cur, &a) {
            cur = slice_of(&cur, 0, cur.len() - a.len());
        } else if ends_with_v(&cur, &b) {
            cur = slice_of(&cur, 0, cur.len() - b.len());
        } else {
            return cur;
        }
    }
}

fn first_token_v(s: &Vec<char>) -> (r: Vec<char>)
    ensures
        r@ == first_token(s@),
{
    let t = trim_start_v(s);
    let k = first_ws_v(&t);
    proof {
        lemma_first_ws_bounds(t@);
    }
    let r = slice_of(&t, 0, k);
    assert(r@ =~= t@.take(k as int));
    r
}

proof fn lemma_trim_end_char_take(s: Seq<char>, c: char, i: int)
    requires
        0 < i <= s.len(),
        s[i - 1] == c,
    ensures
        trim_end_char(s.take(i), c) == trim_end_char(s.take(i - 1), c),
{
    assert(s.take(i).drop_last() =~= s.take(i - 1));
}

fn trim_colons_v(s: &Vec<char>) -> (r: Vec<char>)
    ensures
        r@ == trim_colons(s@),
{
    let n = run_len_v(s, ':');
    let t = slice_of(s, n, s.len());
    assert(t@ =~= s@.skip(n as int));
    let mut i: usize = t.len();
    assert(t@.take(t.len() as int) =~= t@);
    while i > 0 && t[i - 1] == ':'
        invariant
            i <= t.len(),
            trim_end_char(t@, ':') == trim_end_char(t@.take(i as int), ':'),
        decreases i,
    {
        proof {
            lemma_trim_end_char_take(t@, ':', i as int);
        }
        i -= 1;
    }
    let r = slice_of(&t, 0, i);
    assert(r@ =~= t@.take(i as int));
    r
}

fn info_lang_v(rest: &Vec<char>) -> (r: Vec<char>)
    ensures
        r@ == info_lang(rest@),
{
    let tok = first_token_v(rest);
    let lang = strip_ln_suffixes_v(&tok);
    let pat = to_chars(":line-numbers=");
    proof {
        lemma_find_seq_from(lang@, pat@, 0);
    }
    let lang = match find_seq_v(&lang, &pat) {
        Some(k) => {
            let x = slice_of(&lang, 0, k);
            assert(x@ =~= lang@.take(k as int));
            x
        },
        None => lang,
    };
    trim_colons_v(&lang)
}

/// Rewrites a fence info string into the `gdcode` sentinel form.
pub fn rewrite_info(info: &str) -> (r: String)
    ensures
        r@ == spec_rewrite_info(info@),
{
    let v = to_chars(info);
    if v.len() == 0 {
        return String::from_str("gdcode");
    }
    let (label, rest) = info_label_v(&v);
    let (hl, rest) = info_hl_v(&rest);
    let lang = info_lang_v(&rest);
    let mut out = to_chars("gdcode lang=");
    push_all(&mut out, &lang);
    let ghost a = out@;
    if let Some(h) = &hl {
        push_str(&mut out, " hl=");
        push_all(&mut out, h);
    }
    let ghost b = out@;
    if let Some(l) = &label {
        push_str(&mut out, " label=");
        push_all(&mut out, l);
    }
    proof {
        let hs: Seq<char> = match hl {
            Some(h) => " hl="@ + h@,
            None => Seq::empty(),
        };
        let ls: Seq<char> = match label {
            Some(l) => " label="@ + l@,
            None => Seq::empty(),
        };
        assert(b =~= a + hs);
        assert(out@ =~= b + ls);
        assert(out@ =~= spec_rewrite_info(info@));
    }
    from_chars(&out)
}


/// Scanner state of the info-string pass: output so far and the fence
/// being skipped.
pub type FenceScan = (Seq<char>, Option<(char, usize)>);

/// How many characters of leading whitespace a line has.
pub open spec fn lead_ws(bare: Seq<char>) -> int {
    bare.len() - trim_start(bare).len()
}

/// One line through the info-string pass: a fence opener keeps its
/// indentation and its whole marker run, then a space and the rewritten
/// info string.
pub open spec fn fence_step(st: FenceScan, bare: Seq<char>) -> FenceScan {
    let (out, fence) = st;
    match fence {
        Some((ch, n)) => (
            out + bare + "\n"@,
            if spec_is_closing_fence(bare, ch, n) {
                None
            } else {
                fence
            },
        ),
        None => match spec_opening_fence(bare) {
            Some((ch, n)) => (
                out + bare.take(lead_ws(bare) + n) + " "@ + spec_rewrite_info(
                    trim(bare.skip(lead_ws(bare) + n)),
                ) + "\n"@,
                Some((ch, n)),
            ),
            None => (out + bare + "\n"@, None),
        },
    }
}

pub open spec fn fence_fold(lines: Seq<Seq<char>>) -> FenceScan
    decreases lines.len(),
{
    if lines.len() == 0 {
        (Seq::empty(), None)
    } else {
        fence_step(fence_fold(lines.drop_last()), lines.last())
    }
}

/// The info-string pass: every line is copied (followed by `\n`), fence
/// openers outside fences get the sentinel info string.
pub open spec fn spec_rewrite_fences(md: Seq<char>) -> Seq<char> {
    fence_fold(bare_lines(md)).0
}

proof fn lemma_trim_start_len(s: Seq<char>)
    ensures
        trim_start(s).len() <= s.len(),
    decreases s.len(),
{
    if s.len() > 0 && is_ws(s[0]) {
        lemma_trim_start_len(s.drop_first());
    }
}

pub proof fn lemma_run_len_le(s: Seq<char>, c: char)
    ensures
        run_len(s, c) <= s.len(),
    decreases s.len(),
{
    if s.len() > 0 && s[0] == c {
        lemma_run_len_le(s.drop_first(), c);
    }
}

fn fence_line(out: &mut Vec<char>, fence: &mut Option<(char, usize)>, bare: &Vec<char>)
    ensures
        (final(out)@, *final(fence)) == fence_step((old(out)@, *old(fence)), bare@),
{
    if let Some((ch, n)) = *fence {
        push_all(out, bare);
        push_str(out, "\n");
        if is_closing_fence(bare, ch, n) {
            *fence = None;
        }
        return;
    }
    match opening_fence(bare) {
        Some((ch, n)) => {
            proof {
                lemma_trim_start_len(bare@);
                lemma_run_len_le(trim_start(bare@), ch);
            }
            let t = trim_start_v(bare);
            let w = bare.len() - t.len();
            let head = slice_of(bare, 0, w + n);
            let info = slice_of(bare, w + n, bare.len());
            assert(head@ =~= bare@.take(lead_ws(bare@) + n));
            assert(info@ =~= bare@.skip(lead_ws(bare@) + n));
            let info = trim_v(&info);
            let info_s = from_chars(&info);
            let rewritten = rewrite_info(info_s.as_str());
            let rv = to_chars(rewritten.as_str());
            push_all(out, &head);
            push_str(out, " ");
            push_all(out, &rv);
            push_str(out, "\n");
            *fence = Some((ch, n));
        },
        None => {
            push_all(out, bare);
            push_str(out, "\n");
        },
    }
}

/// Pass: fence info strings → `gdcode lang=… [hl=…] [label=…]`; fences
/// nested inside another fence stay literal.
pub fn rewrite_fences(md: &str) -> (r: String)
    ensures
        r@ == spec_rewrite_fences(md@),
{
    let v = to_chars(md);
    let lines = split_lines_v(&v);
    let ghost blines = bare_lines(v@);
    let mut out: Vec<char> = Vec::new();
    let mut fence: Option<(char, usize)> = None;
    let mut i: usize = 0;
    assert(blines.take(0) =~= Seq::<Seq<char>>::empty());
    while i < lines.len()
        invariant
            i <= lines.len(),
            lines.len() == blines.len(),
            blines == bare_lines(v@),
            forall|k: int| 0 <= k < lines.len() ==> (#[trigger] lines@[k])@ == split_lines(v@)[k],
            (out@, fence) == fence_fold(blines.take(i as int)),
        decreases lines.len() - i,
    {
        let bare = trim_end_nl_v(&lines[i]);
        assert(bare@ == blines[i as int]);
        fence_line(&mut out, &mut fence, &bare);
        proof {
            assert(blines.take(i + 1).drop_last() =~= blines.take(i as int));
        }
        i += 1;
    }
    assert(blines.take(lines.len() as int) =~= blines);
    from_chars(&out)
}

/// The line the info-string pass writes for `bare` (without its `\n`),
/// inside the fence `fence` or outside any.
pub open spec fn fence_line_out(fence: Option<(char, usize)>, bare: Seq<char>) -> Seq<char> {
    match fence {
        Some(_) => bare,
        None => match spec_opening_fence(bare) {
            Some((ch, n)) => bare.take(lead_ws(bare) + n) + " "@ + spec_rewrite_info(
                trim(bare.skip(lead_ws(bare) + n)),
            ),
            None => bare,
        },
    }
}

/// Lines joined, each followed by `\n`.
pub open spec fn lines_nl(s: Seq<Seq<char>>) -> Seq<char>
    decreases s.len(),
{
    if s.len() == 0 {
        Seq::empty()
    } else {
        lines_nl(s.drop_last()) + s.last() + "\n"@
    }
}

/// What the info-string pass writes for each line, given the fence the
/// lines before it leave open.
pub open spec fn fence_outs(lines: Seq<Seq<char>>) -> Seq<Seq<char>> {
    Seq::new(lines.len(), |i: int| fence_line_out(fence_fold(lines.take(i)).1, lines[i]))
}

proof fn lemma_fence_fold_prefix(lines: Seq<Seq<char>>, k: int)
    requires
        0 <= k <= lines.len(),
    ensures
        fence_fold(lines.take(k)).0 == lines_nl(fence_outs(lines).take(k)),
    decreases k,
{
    let outs = fence_outs(lines);
    if k == 0 {
        assert(lines.take(0) =~= Seq::<Seq<char>>::empty());
        assert(outs.take(0) =~= Seq::<Seq<char>>::empty());
    } else {
        lemma_fence_fold_prefix(lines, k - 1);
        assert(lines.take(k).drop_last() =~= lines.take(k - 1));
        assert(outs.take(k).drop_last() =~= outs.take(k - 1));
        let st = fence_fold(lines.take(k - 1));
        let bare = lines[k - 1];
        assert(outs.take(k).last() == fence_line_out(st.1, bare));
        match st.1 {
            Some(_) => {},
            None => match spec_opening_fence(bare) {
                Some((ch, n)) => {
                    let head = bare.take(lead_ws(bare) + n);
                    let info = spec_rewrite_info(trim(bare.skip(lead_ws(bare) + n)));
                    assert(st.0 + head + " "@ + info + "\n"@ =~= st.0 + (head + " "@ + info) + "\n"@);
                },
                None => {},
            },
        }
    }
}

/// The leading whitespace `trim_start` drops is a prefix of the line.
proof fn lemma_trim_start_prefix(s: Seq<char>)
    ensures
        trim_start(s).len() <= s.len(),
        trim_start(s) == s.skip(lead_ws(s)),
        all_ws(s.take(lead_ws(s))),
    decreases s.len(),
{
    if s.len() > 0 && is_ws(s[0]) {
        lemma_trim_start_prefix(s.drop_first());
        let t = s.drop_first();
        assert(s.skip(lead_ws(s)) =~= t.skip(lead_ws(t)));
        assert forall|i: int| 0 <= i < s.take(lead_ws(s)).len() implies is_ws(#[trigger] s.take(lead_ws(s))[i]) by {
            if i > 0 {
                assert(s.take(lead_ws(s))[i] == t.take(lead_ws(t))[i - 1]);
            }
        }
    } else {
        assert(s.skip(0) =~= s);
    }
}

/// A run counted by `run_len` is made of its character.
proof fn lemma_run_chars(s: Seq<char>, c: char)
    ensures
        run_len(s, c) <= s.len(),
        forall|j: int| 0 <= j < run_len(s, c) ==> s[j] == c,
    decreases s.len(),
{
    if s.len() > 0 && s[0] == c {
        lemma_run_chars(s.drop_first(), c);
        assert forall|j: int| 0 <= j < run_len(s, c) implies s[j] == c by {
            if j > 0 {
                assert(s[j] == s.drop_first()[j - 1]);
            }
        }
    }
}

/// What the info-string pass writes for line `i`: a fence opener outside
/// a fence becomes its indentation (whitespace) and its whole run of `n`
/// marker characters, a space and the rewritten trimmed info string;
/// every other line is copied unchanged.
pub open spec fn fence_line_written(lines: Seq<Seq<char>>, i: int) -> bool {
    let l = lines[i];
    match (fence_fold(lines.take(i)).1, spec_opening_fence(l)) {
        (None, Some((ch, n))) => {
            &&& all_ws(l.take(lead_ws(l)))
            &&& forall|j: int| lead_ws(l) <= j < lead_ws(l) + n ==> l[j] == ch
            &&& fence_outs(lines)[i] == l.take(lead_ws(l) + n) + " "@ + spec_rewrite_info(trim(l.skip(lead_ws(l) + n)))
        },
        _ => fence_outs(lines)[i] == l,
    }
}

/// The info-string pass works line by line: its output is the input's
/// lines in order, each followed by `\n`, each written as
/// `fence_line_written` says.
pub proof fn law_rewrite_fences_line_by_line(md: Seq<char>)
    ensures
        fence_outs(bare_lines(md)).len() == bare_lines(md).len(),
        spec_rewrite_fences(md) == lines_nl(fence_outs(bare_lines(md))),
        forall|i: int| 0 <= i < bare_lines(md).len() ==> #[trigger] fence_line_written(bare_lines(md), i),
{
    let lines = bare_lines(md);
    lemma_fence_fold_prefix(lines, lines.len() as int);
    assert(lines.take(lines.len() as int) =~= lines);
    assert(fence_outs(lines).take(lines.len() as int) =~= fence_outs(lines));
    assert forall|i: int| 0 <= i < lines.len() implies #[trigger] fence_line_written(lines, i) by {
        let l = lines[i];
        lemma_trim_start_prefix(l);
        let t = trim_start(l);
        if t.len() > 0 {
            lemma_run_chars(t, t[0]);
            assert forall|j: int| lead_ws(l) <= j < lead_ws(l) + run_len(t, t[0]) implies l[j] == t[0] by {
                assert(l[j] == t[j - lead_ws(l)]);
            }
        }
    }
}

// ── include helpers ────────────────────────────────────────────────────

/// `<!--@include: ./file.md-->` → the target path (relative to the page;
/// an `@/` prefix is dropped).
pub open spec fn spec_md_include_target(line: Seq<char>) -> Option<Seq<char>> {
    let t = trim(line);
    let p = "<!--@include:"@;
    let rest = t.skip(p.len() as int);
    if starts_with(t, p) && ends_with(rest, "-->"@) {
        let inner = trim(rest.take(rest.len() - "-->"@.len()));
        if inner.len() == 0 {
            None
        } else if starts_with(inner, "@/"@) {
            Some(inner.skip("@/"@.len() as int))
        } else {
            Some(inner)
        }
    } else {
        None
    }
}

pub fn md_include_target(line: &str) -> (r: Option<String>)
    ensures
        match r {
            Some(p) => spec_md_include_target(line@) == Some(p@),
            None => spec_md_include_target(line@) is None,
        },
{
    let v = to_chars(line);
    let t = trim_v(&v);
    let p = to_chars("<!--@include:");
    if !starts_with_v(&t, &p) {
        return None;
    }
    let rest = slice_of(&t, p.len(), t.len());
    assert(rest@ =~= t@.skip(p@.len() as int));
    let close = to_chars("-->");
    if !ends_with_v(&rest, &close) {
        return None;
    }
    let body = slice_of(&rest, 0, rest.len() - close.len());
    assert(body@ =~= rest@.take(rest@.len() - "-->"@.len()));
    let inner = trim_v(&body);
    if inner.len() == 0 {
        return None;
    }
    let at = to_chars("@/");
    if starts_with_v(&inner, &at) {
        let x = slice_of(&inner, at.len(), inner.len());
        assert(x@ =~= inner@.skip("@/"@.len() as int));
        Some(from_chars(&x))
    } else {
        Some(from_chars(&inner))
    }
}

/// `#region NAME` … `#endregion` of a snippet: the lines between the
/// first region marker naming `name` and the next `#endregion` (to the
/// end when unterminated); None when no region starts.
pub open spec fn region_scan(lines: Seq<Seq<char>>, name: Seq<char>, k: int, inside: bool, acc: Seq<char>) -> Option<Seq<char>>
    decreases lines.len() - k,
{
    if k < 0 || k >= lines.len() {
        if inside {
            Some(acc)
        } else {
            None
        }
    } else {
        let l = lines[k];
        if !inside && contains_seq(l, "#region"@) && contains_seq(l, name) {
            region_scan(lines, name, k + 1, true, acc)
        } else if inside && contains_seq(l, "#endregion"@) {
            Some(acc)
        } else if inside {
            region_scan(lines, name, k + 1, true, acc + l)
        } else {
            region_scan(lines, name, k + 1, false, acc)
        }
    }
}

pub open spec fn spec_extract_region(content: Seq<char>, name: Seq<char>) -> Option<Seq<char>> {
    region_scan(split_lines(content), name, 0, false, Seq::empty())
}

pub fn extract_region(content: &str, name: &str) -> (r: Option<String>)
    ensures
        match r {
            Some(x) => spec_extract_region(content@, name@) == Some(x@),
            None => spec_extract_region(content@, name@) is None,
        },
{
    let v = to_chars(content);
    let nm = to_chars(name);
    let lines = split_lines_v(&v);
    let ghost ls = split_lines(v@);
    let reg = to_chars("#region");
    let endreg = to_chars("#endregion");
    let mut out: Vec<char> = Vec::new();
    let mut inside = false;
    let mut k: usize = 0;
    while k < lines.len()
        invariant
            k <= lines.len(),
            lines.len() == ls.len(),
            ls == split_lines(v@),
            reg@ == "#region"@,
            endreg@ == "#endregion"@,
            forall|j: int| 0 <= j < lines.len() ==> (#[trigger] lines@[j])@ == ls[j],
            region_scan(ls, nm@, k as int, inside, out@) == spec_extract_region(content@, name@),
        decreases lines.len() - k,
    {
        let l = &lines[k];
        assert(l@ == ls[k as int]);
        if !inside && contains_v(l, &reg) && contains_v(l, &nm) {
            inside = true;
        } else if inside && contains_v(l, &endreg) {
            return Some(from_chars(&out));
        } else if inside {
            push_all(&mut out, l);
        }
        k += 1;
    }
    if inside {
        Some(from_chars(&out))
    } else {
        None
    }
}

/// Longest backtick run of `s`, counting from a floor of 2.
pub open spec fn backtick_scan(s: Seq<char>) -> (nat, nat)
    decreases s.len(),
{
    if s.len() == 0 {
        (2, 0)
    } else {
        let (longest, run) = backtick_scan(s.drop_last());
        if s.last() == '`' {
            let r = run + 1;
            (if r > longest {
                r
            } else {
                longest
            }, r)
        } else {
            (longest, 0)
        }
    }
}

/// A fence marker longer than any backtick run inside the content
/// (at least three backticks).
pub open spec fn spec_fence_marker_for(content: Seq<char>) -> Seq<char> {
    Seq::new(backtick_scan(content).0 + 1, |i: int| '`')
}

pub fn fence_marker_for(content: &str) -> (r: String)
    ensures
        r@ == spec_fence_marker_for(content@),
{
    let v = to_chars(content);
    let mut longest: usize = 2;
    let mut run: usize = 0;
    let mut i: usize = 0;
    assert(v@.take(0) =~= Seq::<char>::empty());
    while i < v.len()
        invariant
            i <= v.len(),
            run <= i,
            longest <= i + 2,
            (longest as nat, run as nat) == backtick_scan(v@.take(i as int)),
        decreases v.len() - i,
    {
        proof {
            assert(v@.take(i + 1).drop_last() =~= v@.take(i as int));
        }
        if v[i] == '`' {
            run += 1;
            if run > longest {
                longest = run;
            }
        } else {
            run = 0;
        }
        i += 1;
    }
    assert(v@.take(v.len() as int) =~= v@);
    let mut out: Vec<char> = Vec::new();
    out.push('`');
    let mut j: usize = 0;
    assert(out@ =~= Seq::new(1, |i: int| '`'));
    while j < longest
        invariant
            j <= longest,
            out@ == Seq::new((j + 1) as nat, |i: int| '`'),
        decreases longest - j,
    {
        out.push('`');
        assert(out@ =~= Seq::new((j + 2) as nat, |i: int| '`'));
        j += 1;
    }
    from_chars(&out)
}


// ── pass: badges ───────────────────────────────────────────────────────

/// The matches of `<Badge\s+([^<>]*?)\s*/>` in a line, left to right:
/// each as the text before it and its attribute text; then the text
/// after the last match.
pub uninterp spec fn spec_self_badge_matches(line: Seq<char>) -> (Seq<(Seq<char>, Seq<char>)>, Seq<char>);

/// The matches of `(?s)<Badge\s+([^<>]*?)>(.*?)</Badge>` in a line, left
/// to right: each as the text before it, its attribute text and its
/// inner text; then the text after the last match.
pub uninterp spec fn spec_paired_badge_matches(line: Seq<char>) -> (Seq<(Seq<char>, Seq<char>, Seq<char>)>, Seq<char>);

/// Self-closing badge pieces put back with each match replaced by its
/// span.
pub open spec fn self_badges_joined(ms: Seq<(Seq<char>, Seq<char>)>) -> Seq<char>
    decreases ms.len(),
{
    if ms.len() == 0 {
        Seq::empty()
    } else {
        self_badges_joined(ms.drop_last()) + ms.last().0 + spec_self_badge_html(ms.last().1)
    }
}

/// Paired badge pieces put back with each match replaced by its span.
pub open spec fn paired_badges_joined(ms: Seq<(Seq<char>, Seq<char>, Seq<char>)>) -> Seq<char>
    decreases ms.len(),
{
    if ms.len() == 0 {
        Seq::empty()
    } else {
        paired_badges_joined(ms.drop_last()) + ms.last().0 + spec_paired_badge_html(ms.last().1, ms.last().2)
    }
}

/// A line with every self-closing `<Badge … />` replaced by its
/// `VPBadge` span.
pub open spec fn spec_self_closing_badges(line: Seq<char>) -> Seq<char> {
    let (ms, tail) = spec_self_badge_matches(line);
    self_badges_joined(ms) + tail
}

/// A line with every paired `<Badge …>inner</Badge>` replaced by its
/// `VPBadge` span.
pub open spec fn spec_paired_badges(line: Seq<char>) -> Seq<char> {
    let (ms, tail) = spec_paired_badge_matches(line);
    paired_badges_joined(ms) + tail
}

/// The `name="value"` pairs of a badge's attribute text, in order (the
/// matches of `(\w+)\s*=\s*"([^"]*)"`).
pub uninterp spec fn spec_attr_pairs(attrs: Seq<char>) -> Seq<(Seq<char>, Seq<char>)>;

/// `regex::Regex::captures_iter` with the self-closing badge pattern:
/// each match as the text before it and its first group, then the text
/// after the last match; the result is named by `spec_self_badge_matches`.
/// A line without `<Badge` has no match and is all tail.
#[verifier::external_body]
fn self_badge_matches(line: &str) -> (r: (Vec<(String, String)>, String))
    ensures
        (r.0.deep_view(), r.1@) == spec_self_badge_matches(line@),
        !contains_seq(line@, "<Badge"@) ==> r.0.len() == 0 && r.1@ == line@,
{
    let re = regex::Regex::new(r#"<Badge\s+([^<>]*?)\s*/>"#).unwrap();
    let mut parts = Vec::new();
    let mut last: usize = 0;
    for cap in re.captures_iter(line) {
        let whole = cap.get(0).unwrap();
        parts.push((line[last..whole.start()].to_string(), cap[1].to_string()));
        last = whole.end();
    }
    (parts, line[last..].to_string())
}

/// `regex::Regex::captures_iter` with the paired badge pattern: each
/// match as the text before it and its two groups, then the text after
/// the last match; the result is named by `spec_paired_badge_matches`. A
/// line without `<Badge` has no match and is all tail.
#[verifier::external_body]
fn paired_badge_matches(line: &str) -> (r: (Vec<(String, String, String)>, String))
    ensures
        (r.0.deep_view(), r.1@) == spec_paired_badge_matches(line@),
        !contains_seq(line@, "<Badge"@) ==> r.0.len() == 0 && r.1@ == line@,
{
    let re = regex::Regex::new(r#"(?s)<Badge\s+([^<>]*?)>(.*?)</Badge>"#).unwrap();
    let mut parts = Vec::new();
    let mut last: usize = 0;
    for cap in re.captures_iter(line) {
        let whole = cap.get(0).unwrap();
        parts.push((line[last..whole.start()].to_string(), cap[1].to_string(), cap[2].to_string()));
        last = whole.end();
    }
    (parts, line[last..].to_string())
}

/// `regex::Regex::captures_iter` with the attribute pattern, each match
/// as its (name, value) groups. The result is named by
/// `spec_attr_pairs`.
#[verifier::external_body]
fn attr_pairs(attrs: &str) -> (r: Vec<(String, String)>)
    ensures
        r.deep_view() == spec_attr_pairs(attrs@),
{
    let re = regex::Regex::new(r#"(\w+)\s*=\s*"([^"]*)""#).unwrap();
    re.captures_iter(attrs).map(|c| (c[1].to_string(), c[2].to_string())).collect()
}

/// The value of the last pair named `name`.
pub open spec fn last_attr(pairs: Seq<(Seq<char>, Seq<char>)>, name: Seq<char>) -> Option<Seq<char>>
    decreases pairs.len(),
{
    if pairs.len() == 0 {
        None
    } else if pairs.last().0 == name {
        Some(pairs.last().1)
    } else {
        last_attr(pairs.drop_last(), name)
    }
}

/// A badge's (type, text) from its attributes: `tip` and empty by
/// default, the last `type=` / `text=` otherwise.
pub open spec fn spec_badge_attrs(pairs: Seq<(Seq<char>, Seq<char>)>) -> (Seq<char>, Seq<char>) {
    (
        match last_attr(pairs, "type"@) {
            Some(t) => t,
            None => "tip"@,
        },
        match last_attr(pairs, "text"@) {
            Some(t) => t,
            None => Seq::empty(),
        },
    )
}

fn badge_attrs(attrs: &str) -> (r: (String, String))
    ensures
        (r.0@, r.1@) == spec_badge_attrs(spec_attr_pairs(attrs@)),
{
    let pairs = attr_pairs(attrs);
    let ghost pd = pairs.deep_view();
    let mut ty = String::from_str("tip");
    let mut text = String::new();
    let mut k: usize = 0;
    assert(pd.take(0) =~= Seq::<(Seq<char>, Seq<char>)>::empty());
    while k < pairs.len()
        invariant
            k <= pairs.len(),
            pd == pairs.deep_view(),
            pd == spec_attr_pairs(attrs@),
            ty@ == match last_attr(pd.take(ix(k)), "type"@) {
                Some(t) => t,
                None => "tip"@,
            },
            text@ == match last_attr(pd.take(ix(k)), "text"@) {
                Some(t) => t,
                None => Seq::empty(),
            },
        decreases pairs.len() - k,
    {
        let (name, value) = &pairs[k];
        let nv = to_chars(name.as_str());
        assert(pd[ix(k)] == (name@, value@));
        assert(pd.take(ix(k) + 1).drop_last() =~= pd.take(ix(k)));
        proof {
            reveal_strlit("type");
            reveal_strlit("text");
            if nv@ == "type"@ {
                assert(nv@[1] != "text"@[1]);
            }
        }
        if eq_str(&nv, "type") {
            ty = value.clone();
        } else if eq_str(&nv, "text") {
            text = value.clone();
        }
        k += 1;
    }
    assert(pd.take(ix(k)) =~= pd);
    (ty, text)
}

/// The span a self-closing badge becomes.
pub open spec fn spec_self_badge_html(attrs: Seq<char>) -> Seq<char> {
    let (ty, text) = spec_badge_attrs(spec_attr_pairs(attrs));
    "<span class=\"VPBadge "@ + ty + "\">"@ + escape_seq(text) + "</span>"@
}

/// The span a paired badge becomes (its inner text trimmed, not escaped).
pub open spec fn spec_paired_badge_html(attrs: Seq<char>, inner: Seq<char>) -> Seq<char> {
    let (ty, _) = spec_badge_attrs(spec_attr_pairs(attrs));
    "<span class=\"VPBadge "@ + ty + "\">"@ + trim(inner) + "</span>"@
}

/// `<Badge type="info" text="x" />` → `<span class="VPBadge info">x</span>`.
pub fn self_badge_html(attrs: &str) -> (r: String)
    ensures
        r@ == spec_self_badge_html(attrs@),
{
    let (ty, text) = badge_attrs(attrs);
    let mut out = to_chars("<span class=\"VPBadge ");
    push_str(&mut out, ty.as_str());
    push_str(&mut out, "\">");
    let tv = to_chars(text.as_str());
    push_escaped(&mut out, &tv);
    push_str(&mut out, "</span>");
    from_chars(&out)
}

/// `<Badge type="info">inner</Badge>` → `<span class="VPBadge info">inner</span>`.
pub fn paired_badge_html(attrs: &str, inner: &str) -> (r: String)
    ensures
        r@ == spec_paired_badge_html(attrs@, inner@),
{
    let (ty, _text) = badge_attrs(attrs);
    let mut out = to_chars("<span class=\"VPBadge ");
    push_str(&mut out, ty.as_str());
    push_str(&mut out, "\">");
    let iv = to_chars(inner);
    let t = trim_v(&iv);
    push_all(&mut out, &t);
    push_str(&mut out, "</span>");
    from_chars(&out)
}

/// Every self-closing badge of a line replaced by its span.
fn replace_self_closing_badges(line: &str) -> (r: String)
    ensures
        r@ == spec_self_closing_badges(line@),
        !contains_seq(line@, "<Badge"@) ==> r@ == line@,
{
    let (ms, tail) = self_badge_matches(line);
    let ghost mv = ms.deep_view();
    let mut out: Vec<char> = Vec::new();
    let mut i: usize = 0;
    assert(mv.take(0) =~= Seq::<(Seq<char>, Seq<char>)>::empty());
    while i < ms.len()
        invariant
            i <= ms.len(),
            mv == ms.deep_view(),
            out@ == self_badges_joined(mv.take(i as int)),
        decreases ms.len() - i,
    {
        assert(mv.take(i + 1).drop_last() =~= mv.take(i as int));
        assert(mv.take(i + 1).last() == (ms@[i as int].0@, ms@[i as int].1@));
        push_str(&mut out, ms[i].0.as_str());
        let h = self_badge_html(ms[i].1.as_str());
        push_str(&mut out, h.as_str());
        i += 1;
    }
    assert(mv.take(ms.len() as int) =~= mv);
    push_str(&mut out, tail.as_str());
    proof {
        if !contains_seq(line@, "<Badge"@) {
            assert(mv =~= Seq::<(Seq<char>, Seq<char>)>::empty());
            assert(out@ =~= tail@);
        }
    }
    from_chars(&out)
}

/// Every paired badge of a line replaced by its span.
fn replace_paired_badges(line: &str) -> (r: String)
    ensures
        r@ == spec_paired_badges(line@),
        !contains_seq(line@, "<Badge"@) ==> r@ == line@,
{
    let (ms, tail) = paired_badge_matches(line);
    let ghost mv = ms.deep_view();
    let mut out: Vec<char> = Vec::new();
    let mut i: usize = 0;
    assert(mv.take(0) =~= Seq::<(Seq<char>, Seq<char>, Seq<char>)>::empty());
    while i < ms.len()
        invariant
            i <= ms.len(),
            mv == ms.deep_view(),
            out@ == paired_badges_joined(mv.take(i as int)),
        decreases ms.len() - i,
    {
        assert(mv.take(i + 1).drop_last() =~= mv.take(i as int));
        assert(mv.take(i + 1).last() == (ms@[i as int].0@, ms@[i as int].1@, ms@[i as int].2@));
        push_str(&mut out, ms[i].0.as_str());
        let h = paired_badge_html(ms[i].1.as_str(), ms[i].2.as_str());
        push_str(&mut out, h.as_str());
        i += 1;
    }
    assert(mv.take(ms.len() as int) =~= mv);
    push_str(&mut out, tail.as_str());
    proof {
        if !contains_seq(line@, "<Badge"@) {
            assert(mv =~= Seq::<(Seq<char>, Seq<char>, Seq<char>)>::empty());
            assert(out@ =~= tail@);
        }
    }
    from_chars(&out)
}

/// One line through the badge pass: fence lines are copied as they are
/// (terminator included); other lines get both badge rewrites and a
/// `\n`.
pub open spec fn badge_step(st: FenceScan, line: Seq<char>) -> FenceScan {
    let (out, fence) = st;
    let bare = trim_end_nl(line);
    match fence {
        Some((ch, n)) => (
            out + line,
            if spec_is_closing_fence(bare, ch, n) {
                None
            } else {
                fence
            },
        ),
        None => match spec_opening_fence(bare) {
            Some(f) => (out + line, Some(f)),
            None => (out + spec_paired_badges(spec_self_closing_badges(bare)) + "\n"@, None),
        },
    }
}

pub open spec fn badge_fold(lines: Seq<Seq<char>>) -> FenceScan
    decreases lines.len(),
{
    if lines.len() == 0 {
        (Seq::empty(), None)
    } else {
        badge_step(badge_fold(lines.drop_last()), lines.last())
    }
}

/// The badge pass over a whole text.
pub open spec fn spec_rewrite_badges(md: Seq<char>) -> Seq<char> {
    badge_fold(split_lines(md)).0
}

fn badge_line(out: &mut Vec<char>, fence: &mut Option<(char, usize)>, line: &Vec<char>)
    ensures
        (final(out)@, *final(fence)) == badge_step((old(out)@, *old(fence)), line@),
{
    let bare = trim_end_nl_v(line);
    if let Some((ch, n)) = *fence {
        push_all(out, line);
        if is_closing_fence(&bare, ch, n) {
            *fence = None;
        }
        return;
    }
    match opening_fence(&bare) {
        Some(f) => {
            push_all(out, line);
            *fence = Some(f);
        },
        None => {
            let b = from_chars(&bare);
            let a = replace_self_closing_badges(b.as_str());
            let c = replace_paired_badges(a.as_str());
            let cv = to_chars(c.as_str());
            push_all(out, &cv);
            push_str(out, "\n");
        },
    }
}

/// Pass: `<Badge type="warning" text="experimental" />` and
/// `<Badge type="info">children</Badge>` → `<span class="VPBadge …">`;
/// fenced code stays literal.
pub fn rewrite_badges(md: &str) -> (r: String)
    ensures
        r@ == spec_rewrite_badges(md@),
{
    let v = to_chars(md);
    let lines = split_lines_v(&v);
    let ghost ls = split_lines(v@);
    let mut out: Vec<char> = Vec::new();
    let mut fence: Option<(char, usize)> = None;
    let mut i: usize = 0;
    assert(ls.take(0) =~= Seq::<Seq<char>>::empty());
    while i < lines.len()
        invariant
            i <= lines.len(),
            lines.len() == ls.len(),
            ls == split_lines(v@),
            v@ == md@,
            forall|k: int| 0 <= k < lines.len() ==> (#[trigger] lines@[k])@ == ls[k],
            (out@, fence) == badge_fold(ls.take(ix(i))),
        decreases lines.len() - i,
    {
        assert(lines@[ix(i)]@ == ls[ix(i)]);
        badge_line(&mut out, &mut fence, &lines[i]);
        assert(ls.take(ix(i) + 1).drop_last() =~= ls.take(ix(i)));
        i += 1;
    }
    assert(ls.take(ix(i)) =~= ls);
    from_chars(&out)
}


// ── pass: includes ─────────────────────────────────────────────────────

/// How deep markdown includes may nest.
pub const MAX_INCLUDE_DEPTH: u8 = 8;

/// Why preprocessing failed (bad includes).
#[derive(Debug)]
pub enum PreprocessError {
    /// An included file could not be read.
    Read { path: String, message: String },
    /// Markdown includes nest deeper than `MAX_INCLUDE_DEPTH`.
    Depth { path: String },
}

/// A `<<<` code include: the file (site-root-relative when written
/// `@/…`, else page-relative), an optional `#region`, the lines to
/// highlight and the language from an optional `{lines lang}` group, an
/// optional `[label]`.
#[derive(Debug)]
pub struct CodeInclude {
    pub target: String,
    pub from_root: bool,
    pub region: Option<String>,
    pub lines: String,
    pub lang: Option<String>,
    pub label: Option<String>,
}

/// What to do with one line of the include pass.
#[derive(Debug)]
pub enum IncludeAction {
    /// Copy the line as it is.
    Keep,
    /// Replace the line by a fenced block of the file's content (the
    /// line stays when the file cannot be read).
    Code(CodeInclude),
    /// Replace the line by the included markdown file (page-relative).
    Markdown(String),
    /// The markdown include nests too deep.
    TooDeep(String),
    /// Inside a fence: replace the line by the included file as it is.
    Verbatim(String),
}

/// `s` without every leading repetition of `p` (`trim_start_matches`).
pub open spec fn trim_prefix_all(s: Seq<char>, p: Seq<char>) -> Seq<char>
    decreases s.len(),
{
    if p.len() > 0 && starts_with(s, p) {
        trim_prefix_all(s.skip(p.len() as int), p)
    } else {
        s
    }
}

/// A `<<<` line without its marker: the text before an optional
/// trailing `[label]`, and the label.
pub open spec fn include_head(line: Seq<char>) -> (Seq<char>, Option<Seq<char>>) {
    let rest = trim(trim_prefix_all(line, "<<<"@));
    let i = find_seq_from(rest, " ["@, 0);
    if i >= 0 && ends_with(rest, "]"@) {
        (rest.take(i), Some(rest.subrange(i + 2, rest.len() - 1)))
    } else {
        (rest, None)
    }
}

/// A text without its trailing `{…}` group, and the group's inside.
pub open spec fn brace_split(t: Seq<char>) -> (Seq<char>, Option<Seq<char>>) {
    let o = last_index_of(t, '{');
    if t.len() > 0 && t.last() == '}' && o >= 0 {
        (t.take(o), Some(t.subrange(o + 1, t.len() - 1)))
    } else {
        (t, None)
    }
}

pub open spec fn is_line_char(c: char) -> bool {
    ('0' <= c && c <= '9') || c == ',' || c == '-'
}

/// Length of the leading run of digits, commas and dashes.
pub open spec fn line_chars_run(m: Seq<char>) -> nat
    decreases m.len(),
{
    if m.len() > 0 && is_line_char(m[0]) {
        1 + line_chars_run(m.drop_first())
    } else {
        0
    }
}

/// A `{lines lang}` group: the lines to highlight (digits, commas and
/// dashes) and, after an optional space, the language; `None` when the
/// language holds a space.
pub open spec fn meta_parts(m: Seq<char>) -> Option<(Seq<char>, Option<Seq<char>>)> {
    let n = line_chars_run(m);
    let after = m.skip(n as int);
    let lang = if after.len() > 0 && after[0] == ' ' {
        after.skip(1)
    } else {
        after
    };
    if find_from(lang, ' ', 0) >= 0 {
        None
    } else {
        Some(
            (
                m.take(n as int),
                if lang.len() > 0 {
                    Some(lang)
                } else {
                    None
                },
            ),
        )
    }
}

/// The lines and language a code include line's `{…}` group gives
/// (none without a group).
pub open spec fn spec_code_meta(line: Seq<char>) -> (Seq<char>, Option<Seq<char>>) {
    match brace_split(include_head(line).0).1 {
        Some(m) => match meta_parts(m) {
            Some(p) => p,
            None => (Seq::empty(), None),
        },
        None => (Seq::empty(), None),
    }
}

/// The parts of a `<<<` line: (target, region, label), before the
/// `@/` check; `None` when the target holds a brace or the `{…}` group
/// is not one of lines and a language, forms that stay literal.
pub open spec fn spec_code_include_parts(line: Seq<char>) -> Option<(Seq<char>, Option<Seq<char>>, Option<Seq<char>>)> {
    let (t0, label) = include_head(line);
    let (t1, meta) = brace_split(t0);
    let h = find_from(t1, '#', 0);
    let (target, region) = if h >= 0 {
        (t1.take(h), Some(t1.skip(h + 1)))
    } else {
        (t1, None)
    };
    if find_from(target, '{', 0) >= 0 || (meta matches Some(m) && meta_parts(m) is None) {
        None
    } else {
        Some((target, region, label))
    }
}

/// A code include line parsed: the target with its `@/` prefix
/// dropped (and `from_root` set), the region, the lines and language,
/// and the label.
pub open spec fn code_include_ok(ci: CodeInclude, line: Seq<char>) -> bool {
    match spec_code_include_parts(line) {
        Some((target, region, label)) => {
            &&& ci.from_root == starts_with(target, "@/"@)
            &&& ci.target@ == if starts_with(target, "@/"@) {
                target.skip(2)
            } else {
                target
            }
            &&& ci.region.deep_view() == region
            &&& ci.label.deep_view() == label
            &&& (ci.lines@, ci.lang.deep_view()) == spec_code_meta(line)
        },
        None => false,
    }
}

fn trim_prefix_all_v(s: Vec<char>, p: &str) -> (r: Vec<char>)
    ensures
        r@ == trim_prefix_all(s@, p@),
    decreases s.len(),
{
    let pv = to_chars(p);
    if pv.len() > 0 && starts_with_v(&s, &pv) {
        let rest = slice_of(&s, pv.len(), s.len());
        assert(rest@ =~= s@.skip(p@.len() as int));
        trim_prefix_all_v(rest, p)
    } else {
        s
    }
}

/// `<<< @/snippets/x.ts#region [label]` → its parts; `None` for the
/// unsupported line-selector form.
fn brace_split_v(t: &Vec<char>) -> (r: (Vec<char>, Option<Vec<char>>))
    ensures
        r.0@ == brace_split(t@).0,
        match r.1 {
            Some(m) => brace_split(t@).1 == Some(m@),
            None => brace_split(t@).1 is None,
        },
{
    proof {
        lemma_last_index_of(t@, '{');
    }
    if t.len() > 0 && t[t.len() - 1] == '}' {
        if let Some(o) = last_index_of_v(t, '{') {
            let a = slice_of(t, 0, o);
            let m = slice_of(t, o + 1, t.len() - 1);
            assert(a@ =~= t@.take(o as int));
            return (a, Some(m));
        }
    }
    (slice_of(t, 0, t.len()), None)
}

fn line_chars_run_v(m: &Vec<char>) -> (n: usize)
    ensures
        n == line_chars_run(m@),
        n <= m.len(),
{
    let mut i: usize = 0;
    assert(m@.skip(0) =~= m@);
    while i < m.len() && (('0' <= m[i] && m[i] <= '9') || m[i] == ',' || m[i] == '-')
        invariant
            i <= m.len(),
            line_chars_run(m@) == i + line_chars_run(m@.skip(i as int)),
        decreases m.len() - i,
    {
        assert(m@.skip(i as int).drop_first() =~= m@.skip(i + 1));
        i += 1;
    }
    i
}

fn meta_parts_v(m: &Vec<char>) -> (r: Option<(Vec<char>, Option<Vec<char>>)>)
    ensures
        match r {
            Some((l, g)) => meta_parts(m@) == Some((l@, g.deep_view())),
            None => meta_parts(m@) is None,
        },
{
    let n = line_chars_run_v(m);
    let after = slice_of(m, n, m.len());
    assert(after@ =~= m@.skip(n as int));
    let lang = if after.len() > 0 && after[0] == ' ' {
        let l = slice_of(&after, 1, after.len());
        assert(l@ =~= after@.skip(1));
        l
    } else {
        after
    };
    proof {
        lemma_find_from(lang@, ' ', 0);
    }
    if find_from_v(&lang, ' ', 0).is_some() {
        return None;
    }
    let lines = slice_of(m, 0, n);
    assert(lines@ =~= m@.take(n as int));
    if lang.len() > 0 {
        Some((lines, Some(lang)))
    } else {
        Some((lines, None))
    }
}

/// A text split at its first `#` into the part before and the region
/// name after.
fn region_split_v(t: &Vec<char>) -> (r: (Vec<char>, Option<String>))
    ensures
        ({
            let h = find_from(t@, '#', 0);
            if h >= 0 {
                r.0@ == t@.take(h) && r.1.deep_view() == Some(t@.skip(h + 1))
            } else {
                r.0@ == t@ && r.1 is None
            }
        }),
{
    proof {
        lemma_find_from(t@, '#', 0);
    }
    match find_from_v(t, '#', 0) {
        Some(h) => {
            let a = slice_of(t, 0, h);
            let b = slice_of(t, h + 1, t.len());
            assert(a@ =~= t@.take(h as int));
            assert(b@ =~= t@.skip(h + 1));
            (a, Some(from_chars(&b)))
        },
        None => (slice_of(t, 0, t.len()), None),
    }
}

/// The info of an included block.
fn code_info_v(ext: &Vec<char>, ci: &CodeInclude) -> (r: Vec<char>)
    ensures
        r@ == spec_code_info(ext@, ci.lines@, ci.lang.deep_view()),
{
    let mut out: Vec<char> = Vec::new();
    match &ci.lang {
        Some(l) => push_str(&mut out, l.as_str()),
        None => push_all(&mut out, ext),
    }
    let lv = to_chars(ci.lines.as_str());
    let ghost head = out@;
    if lv.len() > 0 {
        push_str(&mut out, "{");
        push_all(&mut out, &lv);
        push_str(&mut out, "}");
    }
    proof {
        reveal_strlit("{");
        reveal_strlit("}");
        assert(out@ =~= spec_code_info(ext@, ci.lines@, ci.lang.deep_view()));
    }
    out
}

pub fn parse_code_include(line: &str) -> (r: Option<CodeInclude>)
    ensures
        match r {
            Some(ci) => code_include_ok(ci, line@),
            None => spec_code_include_parts(line@) is None,
        },
{
    let v = to_chars(line);
    let a = trim_prefix_all_v(v, "<<<");
    let rest = trim_v(&a);
    let key = to_chars(" [");
    proof {
        reveal_strlit(" [");
        reveal_strlit("]");
        lemma_find_seq_from(rest@, key@, 0);
    }
    let (t0, label) = match find_seq_v(&rest, &key) {
        Some(i) => {
            if ends_with_str(&rest, "]") {
                assert(occurs_at(rest@, key@, ix(i)));
                assert(key@ =~= seq![' ', '[']);
                assert(rest@.subrange(ix(i), ix(i) + 2) == key@);
                assert(rest@.subrange(ix(i), ix(i) + 2)[1] == rest@[ix(i) + 1]);
                assert(rest@[ix(i) + 1] == '[');
                assert(rest@[rest@.len() - 1] == ']') by {
                    assert(rest@.subrange(rest@.len() - 1, rest@.len() as int)[0] == ']');
                }
                let t = slice_of(&rest, 0, i);
                let l = slice_of(&rest, i + 2, rest.len() - 1);
                assert(t@ =~= rest@.take(ix(i)));
                (t, Some(from_chars(&l)))
            } else {
                (rest.clone(), None)
            }
        },
        None => (rest.clone(), None),
    };
    assert((t0@, label.deep_view()) == include_head(line@));
    let (t1, meta) = brace_split_v(&t0);
    let (lines, lang) = match meta {
        Some(m) => match meta_parts_v(&m) {
            Some((l, g)) => (from_chars(&l), match g {
                Some(x) => Some(from_chars(&x)),
                None => None,
            }),
            None => {
                return None;
            },
        },
        None => (from_chars(&Vec::new()), None),
    };
    assert((lines@, lang.deep_view()) == spec_code_meta(line@));
    let (target, region) = region_split_v(&t1);
    if find_from_v(&target, '{', 0).is_some() {
        return None;
    }
    let from_root = starts_with_str(&target, "@/");
    let tgt = if from_root {
        proof {
            reveal_strlit("@/");
        }
        let t = slice_of(&target, 2, target.len());
        assert(t@ =~= target@.skip(2));
        t
    } else {
        target
    };
    Some(CodeInclude { target: from_chars(&tgt), from_root, region, lines, lang, label })
}

/// A parameter byte of an escape sequence: `0`–`9`, `;`, `?`.
pub open spec fn is_csi_param(c: char) -> bool {
    ('0' <= c && c <= '9') || c == ';' || c == '?'
}

/// An intermediate byte: space to `/`.
pub open spec fn is_csi_inter(c: char) -> bool {
    ' ' <= c && c <= '/'
}

/// A final byte: `@` to `~`.
pub open spec fn is_csi_final(c: char) -> bool {
    '@' <= c && c <= '~'
}

/// The first position from `j` on whose character is not a parameter
/// byte (`inter` false) or not an intermediate byte (`inter` true).
pub open spec fn skip_class(s: Seq<char>, j: int, inter: bool) -> int
    decreases s.len() - j,
{
    if j < 0 || j >= s.len() {
        j
    } else if (if inter {
        is_csi_inter(s[j])
    } else {
        is_csi_param(s[j])
    }) {
        skip_class(s, j + 1, inter)
    } else {
        j
    }
}

/// The end (exclusive) of an escape sequence `ESC [ params inters final`
/// starting at `i`, or -1 when none starts there. The three byte classes
/// are disjoint, so the pattern `\x1b\[[0-9;?]*[ -/]*[@-~]` matches
/// exactly this way.
pub open spec fn csi_end(s: Seq<char>, i: int) -> int {
    if 0 <= i && i + 1 < s.len() && s[i] == '\x1b' && s[i + 1] == '[' {
        let k = skip_class(s, skip_class(s, i + 2, false), true);
        if k < s.len() && is_csi_final(s[k]) {
            k + 1
        } else {
            -1
        }
    } else {
        -1
    }
}

/// `s[i..]` with every escape sequence removed, scanning left to right.
pub open spec fn strip_from(s: Seq<char>, i: int) -> Seq<char>
    decreases s.len() - i,
{
    if i < 0 || i >= s.len() {
        Seq::empty()
    } else {
        let e = csi_end(s, i);
        if e > i {
            strip_from(s, e)
        } else {
            seq![s[i]] + strip_from(s, i + 1)
        }
    }
}

/// What `regex::Regex::replace_all` with `\x1b\[[0-9;?]*[ -/]*[@-~]` and
/// an empty replacement leaves of a text.
pub open spec fn spec_strip_ansi(s: Seq<char>) -> Seq<char> {
    strip_from(s, 0)
}

proof fn lemma_strip_plain(s: Seq<char>, i: int)
    requires
        0 <= i <= s.len(),
        !s.contains('\x1b'),
    ensures
        strip_from(s, i) == s.skip(i),
    decreases s.len() - i,
{
    if i < s.len() {
        assert(s[i] != '\x1b');
        lemma_strip_plain(s, i + 1);
        assert(s.skip(i) =~= seq![s[i]] + s.skip(i + 1));
    } else {
        assert(s.skip(i) =~= Seq::<char>::empty());
    }
}

/// `regex::Regex::replace_all` with `\x1b\[[0-9;?]*[ -/]*[@-~]` and an
/// empty replacement. The pattern's classes are disjoint, so its
/// leftmost match at a position is the greedy scan `csi_end` describes,
/// and the text left is `spec_strip_ansi`'s.
#[verifier::external_body]
fn replace_ansi(s: &str) -> (r: String)
    ensures
        r@ == spec_strip_ansi(s@),
{
    let re = regex::Regex::new(r"\x1b\[[0-9;?]*[ -/]*[@-~]").unwrap();
    re.replace_all(s, "").into_owned()
}

/// Every ANSI escape sequence (`ESC [ params inters final`) removed.
pub fn strip_ansi(s: &str) -> (r: String)
    ensures
        r@ == spec_strip_ansi(s@),
        !s@.contains('\x1b') ==> r@ == s@,
{
    proof {
        if !s@.contains('\x1b') {
            lemma_strip_plain(s@, 0);
            assert(s@.skip(0) =~= s@);
        }
    }
    replace_ansi(s)
}

/// The fenced block a code include becomes: a marker longer than any
/// backtick run in the content, the info (language and lines), the
/// label, the content (newline-terminated), the closing marker.
pub open spec fn spec_code_block(content: Seq<char>, info: Seq<char>, label: Option<Seq<char>>) -> Seq<char> {
    let marker = spec_fence_marker_for(content);
    marker + info + match label {
        Some(l) => " ["@ + l + "]"@,
        None => Seq::empty(),
    } + "\n"@ + content + (if ends_with(content, "\n"@) {
        Seq::empty()
    } else {
        "\n"@
    }) + marker + "\n"@
}

/// The info of an included block: the given language, else the file's
/// extension, then the lines to highlight in braces when there are any.
pub open spec fn spec_code_info(ext: Seq<char>, lines: Seq<char>, lang: Option<Seq<char>>) -> Seq<char> {
    (match lang {
        Some(l) => l,
        None => ext,
    }) + if lines.len() > 0 {
        "{"@ + lines + "}"@
    } else {
        Seq::empty()
    }
}

/// The content a code include shows: the named region when one is
/// given (none when the region is missing), ANSI escapes stripped from
/// `.ansi` files.
pub open spec fn spec_include_content(content: Seq<char>, region: Option<Seq<char>>, ext: Seq<char>) -> Option<Seq<char>> {
    let c = match region {
        Some(name) => spec_extract_region(content, name),
        None => Some(content),
    };
    match c {
        Some(x) => Some(
            if ext == "ansi"@ {
                spec_strip_ansi(x)
            } else {
                x
            },
        ),
        None => None,
    }
}

/// The block a code include becomes from the file's content and
/// extension; `None` when the named region is missing (the line then
/// stays literal).
pub fn code_include_block(content: &str, ext: &str, ci: &CodeInclude) -> (r: Option<String>)
    ensures
        match spec_include_content(content@, ci.region.deep_view(), ext@) {
            Some(c) => r is Some && r->0@ == spec_code_block(
                c,
                spec_code_info(ext@, ci.lines@, ci.lang.deep_view()),
                ci.label.deep_view(),
            ),
            None => r is None,
        },
{
    let c: String = match &ci.region {
        Some(name) => match extract_region(content, name.as_str()) {
            Some(x) => x,
            None => {
                return None;
            },
        },
        None => String::from_str(content),
    };
    let ev = to_chars(ext);
    let c = if eq_str(&ev, "ansi") {
        strip_ansi(c.as_str())
    } else {
        c
    };
    let marker = fence_marker_for(c.as_str());
    let mut out = to_chars(marker.as_str());
    let info = code_info_v(&ev, ci);
    push_all(&mut out, &info);
    match &ci.label {
        Some(l) => {
            push_str(&mut out, " [");
            push_str(&mut out, l.as_str());
            push_str(&mut out, "]");
        },
        None => {},
    }
    push_str(&mut out, "\n");
    let cv = to_chars(c.as_str());
    push_all(&mut out, &cv);
    if !ends_with_str(&cv, "\n") {
        push_str(&mut out, "\n");
    }
    push_str(&mut out, marker.as_str());
    push_str(&mut out, "\n");
    proof {
        reveal_strlit("");
    }
    Some(from_chars(&out))
}

/// The decision for one line of the include pass at nesting `depth`,
/// with the fence state before and after it: fence lines are kept,
/// but for markdown includes, whose files go in verbatim; a
/// `<<<` line outside fences is a code include (kept when its form is
/// unsupported); an `<!--@include:-->` line is a markdown include,
/// refused past the depth limit.
pub open spec fn spec_include_step(fence: Option<(char, usize)>, line: Seq<char>, depth: u8) -> (
    Option<(char, usize)>,
    int,
    Option<Seq<char>>,
) {
    let bare = trim_end_nl(line);
    match fence {
        Some((ch, n)) => if spec_is_closing_fence(bare, ch, n) {
            (None, 0, None)
        } else {
            match spec_md_include_target(trim(bare)) {
                Some(p) => (fence, 4, Some(p)),
                None => (fence, 0, None),
            }
        },
        None => match spec_opening_fence(bare) {
            Some(f) => (Some(f), 0, None),
            None => {
                let t = trim(bare);
                if starts_with(t, "<<<"@) {
                    (None, if spec_code_include_parts(t) is Some { 1 } else { 0 }, None)
                } else {
                    match spec_md_include_target(t) {
                        Some(p) => (None, if depth >= MAX_INCLUDE_DEPTH { 3 } else { 2 }, Some(p)),
                        None => (None, 0, None),
                    }
                }
            },
        },
    }
}

/// The kind of an action (0 keep, 1 code, 2 markdown, 3 too deep, 4
/// verbatim).
pub open spec fn action_kind(a: IncludeAction) -> int {
    match a {
        IncludeAction::Keep => 0,
        IncludeAction::Code(_) => 1,
        IncludeAction::Markdown(_) => 2,
        IncludeAction::TooDeep(_) => 3,
        IncludeAction::Verbatim(_) => 4,
    }
}

/// One line of the include pass: the new fence state and what to do.
pub fn include_step(fence: Option<(char, usize)>, line: &str, depth: u8) -> (r: (Option<(char, usize)>, IncludeAction))
    ensures
        ({
            let (f, k, p) = spec_include_step(fence, line@, depth);
            &&& r.0 == f
            &&& action_kind(r.1) == k
            &&& (match r.1 {
                IncludeAction::Code(ci) => code_include_ok(ci, trim(trim_end_nl(line@))),
                IncludeAction::Markdown(path) => p == Some(path@),
                IncludeAction::TooDeep(path) => p == Some(path@),
                IncludeAction::Verbatim(path) => p == Some(path@),
                IncludeAction::Keep => true,
            })
        }),
{
    let lv = to_chars(line);
    let bare = trim_end_nl_v(&lv);
    if let Some((ch, n)) = fence {
        if is_closing_fence(&bare, ch, n) {
            return (None, IncludeAction::Keep);
        }
        let t = trim_v(&bare);
        return match md_include_target(from_chars(&t).as_str()) {
            Some(p) => {
                proof {
                    assert(trim(t@) == t@) by {
                        lemma_trim_idempotent(bare@);
                    }
                }
                (fence, IncludeAction::Verbatim(p))
            },
            None => {
                proof {
                    assert(trim(t@) == t@) by {
                        lemma_trim_idempotent(bare@);
                    }
                }
                (fence, IncludeAction::Keep)
            },
        };
    }
    if let Some(f) = opening_fence(&bare) {
        return (Some(f), IncludeAction::Keep);
    }
    let t = trim_v(&bare);
    let ts = from_chars(&t);
    if starts_with_str(&t, "<<<") {
        return match parse_code_include(ts.as_str()) {
            Some(ci) => (None, IncludeAction::Code(ci)),
            None => (None, IncludeAction::Keep),
        };
    }
    match md_include_target(ts.as_str()) {
        Some(p) => {
            proof {
                assert(trim(t@) == t@) by {
                    lemma_trim_idempotent(bare@);
                }
            }
            if depth >= MAX_INCLUDE_DEPTH {
                (None, IncludeAction::TooDeep(p))
            } else {
                (None, IncludeAction::Markdown(p))
            }
        },
        None => (None, IncludeAction::Keep),
    }
}

proof fn lemma_trim_idempotent(s: Seq<char>)
    ensures
        trim(trim(s)) == trim(s),
{
    crate::text::lemma_trim_twice(s);
}

/// The passes after includes: containers, fence info strings, badges.
pub open spec fn spec_after_includes(md: Seq<char>) -> Seq<char> {
    spec_rewrite_badges(spec_rewrite_fences(spec_expand_containers(md)))
}

/// Containers, then fence info strings, then badges (the include pass
/// runs before, driven by the caller).
pub fn after_includes(md: &str) -> (r: String)
    ensures
        r@ == spec_after_includes(md@),
{
    let a = expand_containers(md);
    let b = rewrite_fences(a.as_str());
    rewrite_badges(b.as_str())
}


// ── laws ───────────────────────────────────────────────────────────────

/// Inside a fence every pass copies the line as it is: the container
/// pass and the info-string pass append it with a newline, the badge
/// pass appends it with its own terminator; the line that closes the
/// fence ends it.
pub proof fn law_fenced_lines_are_copied(
    out: Seq<char>,
    stack: Seq<(usize, OpenContainer)>,
    ch: char,
    n: usize,
    line: Seq<char>,
)
    ensures
        container_step((out, stack, Some((ch, n))), trim_end_nl(line)).0 == out + trim_end_nl(line) + "\n"@,
        container_step((out, stack, Some((ch, n))), trim_end_nl(line)).1 == stack,
        fence_step((out, Some((ch, n))), trim_end_nl(line)).0 == out + trim_end_nl(line) + "\n"@,
        badge_step((out, Some((ch, n))), line).0 == out + line,
        spec_is_closing_fence(trim_end_nl(line), ch, n) ==> container_step(
            (out, stack, Some((ch, n))),
            trim_end_nl(line),
        ).2 is None && fence_step((out, Some((ch, n))), trim_end_nl(line)).1 is None && badge_step(
            (out, Some((ch, n))),
            line,
        ).1 is None,
        !spec_is_closing_fence(trim_end_nl(line), ch, n) ==> container_step(
            (out, stack, Some((ch, n))),
            trim_end_nl(line),
        ).2 == Some((ch, n)) && fence_step((out, Some((ch, n))), trim_end_nl(line)).1 == Some((ch, n))
            && badge_step((out, Some((ch, n))), line).1 == Some((ch, n)),
{
}

/// What a line does to the open containers.
pub enum ContainerEvent {
    Open(OpenContainer),
    Close(OpenContainer),
}

/// The event of one line: a container opening (the stack grew) or the
/// innermost one closing (the stack shrank); none otherwise.
pub open spec fn step_events(st: ContainerScan, bare: Seq<char>) -> Seq<ContainerEvent> {
    let next = container_step(st, bare);
    if next.1.len() > st.1.len() {
        seq![ContainerEvent::Open(next.1.last().1)]
    } else if next.1.len() < st.1.len() {
        seq![ContainerEvent::Close(st.1.last().1)]
    } else {
        Seq::empty()
    }
}

/// The events of the pass over `lines`, in order.
pub open spec fn fold_events(lines: Seq<Seq<char>>) -> Seq<ContainerEvent>
    decreases lines.len(),
{
    if lines.len() == 0 {
        Seq::empty()
    } else {
        fold_events(lines.drop_last()) + step_events(container_fold(lines.drop_last()), lines.last())
    }
}

/// The closes emitted at the end for containers still open, innermost
/// first.
pub open spec fn close_events(stack: Seq<(usize, OpenContainer)>) -> Seq<ContainerEvent>
    decreases stack.len(),
{
    if stack.len() == 0 {
        Seq::empty()
    } else {
        seq![ContainerEvent::Close(stack.last().1)] + close_events(stack.drop_last())
    }
}

/// Replays events over the open kinds: an open pushes its kind, a close
/// must name the innermost open kind and pops it; `None` when a close
/// does not match.
pub open spec fn replay(events: Seq<ContainerEvent>, open: Seq<OpenContainer>) -> Option<Seq<OpenContainer>>
    decreases events.len(),
{
    if events.len() == 0 {
        Some(open)
    } else {
        match replay(events.drop_last(), open) {
            None => None,
            Some(s) => match events.last() {
                ContainerEvent::Open(o) => Some(s.push(o)),
                ContainerEvent::Close(o) => if s.len() > 0 && s.last() == o {
                    Some(s.drop_last())
                } else {
                    None
                },
            },
        }
    }
}

pub open spec fn kinds(stack: Seq<(usize, OpenContainer)>) -> Seq<OpenContainer> {
    stack.map_values(|e: (usize, OpenContainer)| e.1)
}

/// A line leaves the stack as it is, pushes one entry, or pops the
/// innermost one.
proof fn lemma_step_stack(st: ContainerScan, bare: Seq<char>)
    ensures
        ({
            let next = container_step(st, bare);
            ||| next.1 == st.1
            ||| (next.1.len() == st.1.len() + 1 && next.1.drop_last() == st.1)
            ||| (st.1.len() > 0 && next.1 == st.1.drop_last())
        }),
{
    let next = container_step(st, bare);
    match st.2 {
        Some(_) => {},
        None => match spec_opening_fence(bare) {
            Some(_) => {},
            None => {
                let t = trim(bare);
                match spec_closing_container(t) {
                    Some(_) => {},
                    None => match spec_opening_container(t) {
                        Some((colons, kind, tail)) => {
                            let (markup, o) = open_markup(kind, trim(tail));
                            assert(next.1 == st.1.push((colons, o)));
                            assert(next.1.drop_last() =~= st.1);
                        },
                        None => {},
                    },
                }
            },
        },
    }
}

proof fn lemma_replay_concat(a: Seq<ContainerEvent>, b: Seq<ContainerEvent>, open: Seq<OpenContainer>)
    ensures
        replay(a + b, open) == match replay(a, open) {
            Some(s) => replay(b, s),
            None => None::<Seq<OpenContainer>>,
        },
    decreases b.len(),
{
    if b.len() == 0 {
        assert(a + b =~= a);
    } else {
        lemma_replay_concat(a, b.drop_last(), open);
        assert((a + b).drop_last() =~= a + b.drop_last());
        assert((a + b).last() == b.last());
        match replay(a, open) {
            Some(s) => {},
            None => {},
        }
    }
}

/// Replaying the pass's events from nothing leaves exactly the kinds of
/// the containers still open.
proof fn lemma_fold_replay(lines: Seq<Seq<char>>)
    ensures
        replay(fold_events(lines), Seq::empty()) == Some(kinds(container_fold(lines).1)),
    decreases lines.len(),
{
    if lines.len() == 0 {
        assert(kinds(Seq::<(usize, OpenContainer)>::empty()) =~= Seq::<OpenContainer>::empty());
    } else {
        let prev = lines.drop_last();
        let st = container_fold(prev);
        let next = container_step(st, lines.last());
        assert(container_fold(lines) == next);
        lemma_fold_replay(prev);
        lemma_step_stack(st, lines.last());
        let ev = step_events(st, lines.last());
        assert(fold_events(lines) == fold_events(prev) + ev);
        lemma_replay_concat(fold_events(prev), ev, Seq::empty());
        let k = kinds(st.1);
        assert(replay(Seq::<ContainerEvent>::empty(), k) == Some(k));
        if next.1.len() > st.1.len() {
            assert(ev.drop_last() =~= Seq::<ContainerEvent>::empty());
            assert(replay(ev, k) == Some(k.push(next.1.last().1)));
            assert(kinds(next.1) =~= k.push(next.1.last().1));
        } else if next.1.len() < st.1.len() {
            assert(ev.drop_last() =~= Seq::<ContainerEvent>::empty());
            assert(k.last() == st.1.last().1);
            assert(replay(ev, k) == Some(k.drop_last()));
            assert(kinds(next.1) =~= k.drop_last());
        } else {
            assert(ev =~= Seq::<ContainerEvent>::empty());
            assert(next.1 == st.1);
        }
    }
}

/// Closing what is left, innermost first, replays to nothing.
proof fn lemma_close_replay(stack: Seq<(usize, OpenContainer)>, rest: Seq<OpenContainer>)
    ensures
        replay(close_events(stack), rest + kinds(stack)) == Some(rest),
    decreases stack.len(),
{
    if stack.len() == 0 {
        assert(rest + kinds(stack) =~= rest);
    } else {
        let first = seq![ContainerEvent::Close(stack.last().1)];
        let all = rest + kinds(stack);
        assert(close_events(stack) == first + close_events(stack.drop_last()));
        lemma_replay_concat(first, close_events(stack.drop_last()), all);
        assert(first.drop_last() =~= Seq::<ContainerEvent>::empty());
        assert(replay(Seq::<ContainerEvent>::empty(), all) == Some(all));
        assert(all.last() == stack.last().1);
        assert(all.drop_last() =~= rest + kinds(stack.drop_last()));
        assert(replay(first, all) == Some(rest + kinds(stack.drop_last())));
        lemma_close_replay(stack.drop_last(), rest);
    }
}

/// The containers balance: over the whole pass, every container that
/// opens is closed exactly once, each closer (a marker line, or the end
/// of the text) closes the innermost open container, and nothing is left
/// open.
pub proof fn law_containers_balance(md: Seq<char>)
    ensures
        replay(
            fold_events(bare_lines(md)) + close_events(container_fold(bare_lines(md)).1),
            Seq::empty(),
        ) == Some(Seq::<OpenContainer>::empty()),
{
    let lines = bare_lines(md);
    let st = container_fold(lines);
    lemma_fold_replay(lines);
    lemma_replay_concat(fold_events(lines), close_events(st.1), Seq::empty());
    lemma_close_replay(st.1, Seq::empty());
    assert(Seq::<OpenContainer>::empty() + kinds(st.1) =~= kinds(st.1));
}

// ── include locations ──────────────────────────────────────────────────

/// Where includes are read from: `@/` code includes resolve against the
/// site root, everything else against the page's directory inside the
/// content directory.
pub struct Preprocess {
    pub site_root: String,
    pub content_dir: String,
}

/// `dir` joined with `p` (an absolute `p` replaces `dir`).
pub open spec fn join_path(dir: Seq<char>, p: Seq<char>) -> Seq<char> {
    if starts_with(p, "/"@) {
        p
    } else {
        crate::parity::spec_path_join(dir, p)
    }
}

/// The directory part of a `/`-separated relative path (empty for a
/// bare file name).
pub open spec fn parent_dir(rel: Seq<char>) -> Seq<char> {
    let k = last_index_of(rel, '/');
    if k >= 0 {
        rel.take(k)
    } else {
        Seq::empty()
    }
}

fn join_path_v(dir: &str, p: &Vec<char>) -> (r: String)
    ensures
        r@ == join_path(dir@, p@),
{
    proof {
        reveal_strlit("/");
    }
    if starts_with_str(p, "/") {
        from_chars(p)
    } else {
        crate::parity::path_join_v(dir, p)
    }
}

impl Preprocess {
    pub open spec fn spec_page_dir(&self, page_rel: Seq<char>) -> Seq<char> {
        join_path(self.content_dir@, parent_dir(page_rel))
    }

    /// The page's directory inside the content directory.
    pub fn page_dir(&self, page_rel: &str) -> (r: String)
        ensures
            r@ == self.spec_page_dir(page_rel@),
    {
        let v = to_chars(page_rel);
        proof {
            lemma_last_index_of(v@, '/');
        }
        let dir = match last_index_of_v(&v, '/') {
            Some(k) => slice_of(&v, 0, k),
            None => Vec::new(),
        };
        assert(dir@ =~= parent_dir(page_rel@));
        join_path_v(self.content_dir.as_str(), &dir)
    }

    /// The file a code include reads.
    pub fn code_include_file(&self, page_rel: &str, ci: &CodeInclude) -> (r: String)
        ensures
            r@ == if ci.from_root {
                join_path(self.site_root@, ci.target@)
            } else {
                join_path(self.spec_page_dir(page_rel@), ci.target@)
            },
    {
        let t = to_chars(ci.target.as_str());
        if ci.from_root {
            join_path_v(self.site_root.as_str(), &t)
        } else {
            let d = self.page_dir(page_rel);
            join_path_v(d.as_str(), &t)
        }
    }

    /// The file a markdown include reads (page-relative).
    pub fn markdown_include_file(&self, page_rel: &str, path: &str) -> (r: String)
        ensures
            r@ == join_path(self.spec_page_dir(page_rel@), path@),
    {
        let d = self.page_dir(page_rel);
        join_path_v(d.as_str(), &to_chars(path))
    }
}


/// A details block with no summary text of its own is summarised as
/// "Details": every marker line that names `details` and nothing after
/// it, in any scan state outside a fence, writes the details opening with
/// that summary, closed.
pub proof fn law_bare_details_says_details(st: ContainerScan, line: Seq<char>)
    requires
        st.2 is None,
        spec_opening_fence(line) is None,
        spec_closing_container(trim(line)) is None,
        spec_opening_container(trim(line)) is Some,
        spec_opening_container(trim(line))->Some_0.1 == "details"@,
        trim(spec_opening_container(trim(line))->Some_0.2).len() == 0,
    ensures
        container_step(st, line).0 == st.0 + "<details class=\"custom-block details\">\n<summary>Details</summary>\n\n"@,
{
    reveal_strlit("details");
    reveal_strlit("v-pre");
    reveal_strlit("raw");
    reveal_strlit("code-group");
    reveal_strlit("Details");
    assert("details"@ != "v-pre"@) by { assert("details"@.len() != "v-pre"@.len()); }
    assert("details"@ != "raw"@) by { assert("details"@.len() != "raw"@.len()); }
    assert("details"@ != "code-group"@) by { assert("details"@.len() != "code-group"@.len()); }
    reveal_strlit("<details class=\"custom-block details\"");
    reveal_strlit(">\n<summary>");
    reveal_strlit("</summary>\n\n");
    reveal_strlit("<details class=\"custom-block details\">\n<summary>Details</summary>\n\n");
    let rest = trim(spec_opening_container(trim(line))->Some_0.2);
    assert(spec_parse_details_rest(rest) == ("Details"@, false));
    reveal_with_fuel(escape_seq, 8);
    assert(escape_seq("Details"@) =~= "Details"@);
    assert("<details class=\"custom-block details\""@ + Seq::<char>::empty() + ">\n<summary>"@ + "Details"@
        + "</summary>\n\n"@ =~= "<details class=\"custom-block details\">\n<summary>Details</summary>\n\n"@);
}

/// A details block that is not open has a summary to show: only an
/// explicit `{open}` with nothing before it leaves the summary empty.
pub proof fn law_closed_details_have_a_summary(rest: Seq<char>)
    ensures
        spec_parse_details_rest(rest).0.len() == 0 ==> spec_parse_details_rest(rest).1,
{
    reveal_strlit("Details");
}

} // verus!
