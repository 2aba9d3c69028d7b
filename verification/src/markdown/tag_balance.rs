//! Counting tags in the container pass's output: every wrapper tag the
//! pass opens it also closes, so a text without such tags of its own
//! comes out with as many openers as closers.

use vstd::prelude::*;

use crate::markdown::preprocess::{
    close_markup, container_step, escape_char, escape_seq, first_ws, lemma_first_ws_bounds, lemma_run_len_le, open_markup,
    spec_closing_container, spec_opening_container, spec_opening_fence, spec_parse_details_rest, spec_parse_tip_rest,
    bare_lines, close_all, container_fold, spec_expand_containers, ContainerScan, OpenContainer,
};
use crate::text::{
    lemma_line_end_bounds, line_end, lines_from, run_len, spec_to_uppercase, split_lines, trim, trim_end, trim_end_nl,
    trim_start,
};

verus! {

broadcast use vstd::string::group_string_axioms;

/// How many times `p` occurs in `s`, overlapping occurrences included
/// (`str::matches(p).count()` for the tags counted here, none of which
/// can overlap itself).
pub open spec fn occ(s: Seq<char>, p: Seq<char>) -> nat
    decreases s.len(),
{
    if s.len() == 0 || s.len() < p.len() {
        0
    } else {
        (if s.take(p.len() as int) == p {
            1nat
        } else {
            0nat
        }) + occ(s.drop_first(), p)
    }
}

/// Occurrences in two texts joined are at least those in each.
pub proof fn lemma_occ_join_ge(a: Seq<char>, b: Seq<char>, p: Seq<char>)
    requires
        p.len() > 0,
    ensures
        occ(a + b, p) >= occ(a, p) + occ(b, p),
    decreases a.len(),
{
    if a.len() == 0 {
        assert(a + b =~= b);
    } else {
        assert((a + b).drop_first() =~= a.drop_first() + b);
        lemma_occ_join_ge(a.drop_first(), b, p);
        if a.len() >= p.len() {
            assert((a + b).take(p.len() as int) =~= a.take(p.len() as int));
        }
    }
}

/// Occurrences in two texts joined are the sum of those in each when no
/// occurrence can span the join: the character before it or the one
/// after it is not in `p`.
pub proof fn lemma_occ_join(a: Seq<char>, b: Seq<char>, p: Seq<char>)
    requires
        p.len() > 0,
        a.len() == 0 || b.len() == 0 || !p.contains(a.last()) || !p.contains(b[0]),
    ensures
        occ(a + b, p) == occ(a, p) + occ(b, p),
    decreases a.len(),
{
    if a.len() == 0 {
        assert(a + b =~= b);
    } else {
        assert((a + b).drop_first() =~= a.drop_first() + b);
        if a.len() > 1 {
            assert(a.drop_first().last() == a.last());
        }
        lemma_occ_join(a.drop_first(), b, p);
        if a.len() >= p.len() {
            assert((a + b).take(p.len() as int) =~= a.take(p.len() as int));
        } else if (a + b).len() >= p.len() && (a + b).take(p.len() as int) == p {
            assert(p[a.len() - 1] == a.last());
            assert(p[a.len() as int] == b[0]);
            assert(p.contains(a.last()));
            assert(p.contains(b[0]));
        }
    }
}

/// A text without `p`'s first character holds no occurrence of `p`.
pub proof fn lemma_occ_none(s: Seq<char>, p: Seq<char>)
    requires
        p.len() > 0,
        !s.contains(p[0]),
    ensures
        occ(s, p) == 0,
    decreases s.len(),
{
    if s.len() > 0 && s.len() >= p.len() {
        if s.take(p.len() as int) == p {
            assert(s[0] == p[0]);
        }
        assert forall|i: int| 0 <= i < s.drop_first().len() implies s.drop_first()[i] != p[0] by {
            assert(s.drop_first()[i] == s[i + 1]);
        }
        lemma_occ_none(s.drop_first(), p);
    }
}

/// A text with `p`'s first character only at its start holds `p` once
/// when it starts with `p`, else never.
pub proof fn lemma_occ_head(s: Seq<char>, p: Seq<char>)
    requires
        p.len() > 0,
        s.len() > 0,
        !s.drop_first().contains(p[0]),
    ensures
        occ(s, p) == (if s.len() >= p.len() && s.take(p.len() as int) == p {
            1nat
        } else {
            0nat
        }),
{
    lemma_occ_none(s.drop_first(), p);
}

/// A text whose first character is not `p`'s holds what its rest holds.
pub proof fn lemma_occ_skip_first(s: Seq<char>, p: Seq<char>)
    requires
        p.len() > 0,
        s.len() > 0,
        s[0] != p[0],
    ensures
        occ(s, p) == occ(s.drop_first(), p),
{
    if s.len() >= p.len() && s.take(p.len() as int) == p {
        assert(s[0] == p[0]);
    }
    if s.len() < p.len() {
        lemma_occ_short(s.drop_first(), p);
    }
}

proof fn lemma_occ_short(s: Seq<char>, p: Seq<char>)
    requires
        s.len() < p.len(),
    ensures
        occ(s, p) == 0,
{
}

/// Trimming, or taking a part of a text, never adds occurrences.
pub proof fn lemma_occ_part(s: Seq<char>, i: int, j: int, p: Seq<char>)
    requires
        p.len() > 0,
        0 <= i <= j <= s.len(),
    ensures
        occ(s.subrange(i, j), p) <= occ(s, p),
{
    assert(s =~= s.take(i) + (s.subrange(i, j) + s.skip(j)));
    lemma_occ_join_ge(s.take(i), s.subrange(i, j) + s.skip(j), p);
    lemma_occ_join_ge(s.subrange(i, j), s.skip(j), p);
}

pub proof fn lemma_occ_trim_start(s: Seq<char>, p: Seq<char>)
    requires
        p.len() > 0,
    ensures
        occ(trim_start(s), p) <= occ(s, p),
    decreases s.len(),
{
    if s.len() > 0 && crate::text::is_ws(s[0]) {
        lemma_occ_trim_start(s.drop_first(), p);
        lemma_occ_part(s, 1, s.len() as int, p);
        assert(s.subrange(1, s.len() as int) =~= s.drop_first());
    }
}

pub proof fn lemma_occ_trim_end(s: Seq<char>, p: Seq<char>)
    requires
        p.len() > 0,
    ensures
        occ(trim_end(s), p) <= occ(s, p),
    decreases s.len(),
{
    if s.len() > 0 && crate::text::is_ws(s.last()) {
        lemma_occ_trim_end(s.drop_last(), p);
        lemma_occ_part(s, 0, s.len() - 1, p);
        assert(s.subrange(0, s.len() - 1) =~= s.drop_last());
    }
}

pub proof fn lemma_occ_trim(s: Seq<char>, p: Seq<char>)
    requires
        p.len() > 0,
    ensures
        occ(trim(s), p) <= occ(s, p),
{
    lemma_occ_trim_start(s, p);
    lemma_occ_trim_end(trim_start(s), p);
}

/// Escaped text holds no `<`.
pub proof fn lemma_escape_no_lt(s: Seq<char>)
    ensures
        !escape_seq(s).contains('<'),
    decreases s.len(),
{
    if s.len() > 0 {
        lemma_escape_no_lt(s.drop_last());
        let c = s.last();
        reveal_strlit("&amp;");
        reveal_strlit("&lt;");
        reveal_strlit("&gt;");
        reveal_strlit("&quot;");
        assert(!escape_char(c).contains('<'));
        let e = escape_seq(s.drop_last());
        assert forall|i: int| 0 <= i < (e + escape_char(c)).len() implies (e + escape_char(c))[i] != '<' by {
            if i < e.len() {
                assert((e + escape_char(c))[i] == e[i]);
            } else {
                assert((e + escape_char(c))[i] == escape_char(c)[i - e.len()]);
            }
        }
    }
}


/// A text without `p`'s first character adds no occurrence in front of
/// another text.
pub proof fn lemma_occ_prefix_free(x: Seq<char>, r: Seq<char>, p: Seq<char>)
    requires
        p.len() > 0,
        !x.contains(p[0]),
    ensures
        occ(x + r, p) == occ(r, p),
    decreases x.len(),
{
    if x.len() == 0 {
        assert(x + r =~= r);
    } else {
        assert((x + r)[0] == x[0]);
        lemma_occ_skip_first(x + r, p);
        assert((x + r).drop_first() =~= x.drop_first() + r);
        assert forall|i: int| 0 <= i < x.drop_first().len() implies x.drop_first()[i] != p[0] by {
            assert(x.drop_first()[i] == x[i + 1]);
        }
        lemma_occ_prefix_free(x.drop_first(), r, p);
    }
}

/// Occurrences of `p` in `l + r` where `p`'s first character is in `l`
/// only at its start: the one `l + r` may start with, then those in `r`.
pub proof fn lemma_occ_lead(l: Seq<char>, r: Seq<char>, p: Seq<char>)
    requires
        p.len() > 0,
        l.len() > 0,
        !l.drop_first().contains(p[0]),
    ensures
        occ(l + r, p) == (if (l + r).len() >= p.len() && (l + r).take(p.len() as int) == p {
            1nat
        } else {
            0nat
        }) + occ(r, p),
{
    assert((l + r).drop_first() =~= l.drop_first() + r);
    lemma_occ_prefix_free(l.drop_first(), r, p);
    if (l + r).len() < p.len() {
        lemma_occ_short(r, p);
    }
}

/// The tags counted start `<d` or `</d` and hold none of the characters
/// the pass puts next to the text it copies.
pub open spec fn tag_like(p: Seq<char>) -> bool {
    &&& 4 <= p.len() <= 10
    &&& p[0] == '<'
    &&& (p[1] == 'd' || (p[1] == '/' && p[2] == 'd'))
    &&& !p.contains('"')
    &&& !p.contains('\n')
    &&& !p.contains(' ')
    &&& !p.contains('n')
}

pub proof fn lemma_tags_like()
    ensures
        tag_like("<div"@),
        tag_like("</div>"@),
        tag_like("<details"@),
        tag_like("</details>"@),
{
    reveal_strlit("<div");
    reveal_strlit("</div>");
    reveal_strlit("<details");
    reveal_strlit("</details>");
}

/// Escaped text between a tag that is not counted and a closing tag that
/// is not counted holds no counted tag.
pub proof fn lemma_occ_wrapped(d: Seq<char>, s: Seq<char>, b: Seq<char>, p: Seq<char>)
    requires
        tag_like(p),
        d.len() >= 2,
        d[1] != 'd' && d[1] != '/',
        !d.drop_first().contains('<'),
        b.len() >= 3,
        b[0] == '<',
        b[1] == '/',
        b[2] != 'd',
        !b.drop_first().contains('<'),
    ensures
        occ(d + (escape_seq(s) + b), p) == 0,
{
    let e = escape_seq(s);
    lemma_escape_no_lt(s);
    lemma_occ_lead(d, e + b, p);
    if (d + (e + b)).len() >= p.len() && (d + (e + b)).take(p.len() as int) == p {
        assert((d + (e + b)).take(p.len() as int)[1] == d[1]);
    }
    lemma_occ_prefix_free(e, b, p);
    lemma_occ_head(b, p);
    if b.len() >= p.len() && b.take(p.len() as int) == p {
        assert(b.take(p.len() as int)[2] == b[2]);
    }
}


/// `s` starts with `p`.
pub open spec fn starts(s: Seq<char>, p: Seq<char>) -> bool {
    s.len() >= p.len() && s.take(p.len() as int) == p
}

pub open spec fn one_if(b: bool) -> nat {
    if b {
        1
    } else {
        0
    }
}

/// `<div` openers less `</div>` closers.
pub open spec fn div_balance(s: Seq<char>) -> int {
    occ(s, "<div"@) - occ(s, "</div>"@)
}

/// `<details` openers less `</details>` closers.
pub open spec fn details_balance(s: Seq<char>) -> int {
    occ(s, "<details"@) - occ(s, "</details>"@)
}

/// None of the four tags occurs in `s`.
pub open spec fn tag_free(s: Seq<char>) -> bool {
    &&& occ(s, "<div"@) == 0
    &&& occ(s, "</div>"@) == 0
    &&& occ(s, "<details"@) == 0
    &&& occ(s, "</details>"@) == 0
}

/// The `<div`s a container's opening markup holds.
pub open spec fn div_depth(o: OpenContainer) -> int {
    match o {
        OpenContainer::Tip => 1,
        OpenContainer::Raw => 1,
        OpenContainer::CodeGroup => 2,
        _ => 0,
    }
}

/// The `<details`s a container's opening markup holds.
pub open spec fn details_depth(o: OpenContainer) -> int {
    match o {
        OpenContainer::Details => 1,
        _ => 0,
    }
}

/// A text that starts with `l`, longer than `p`, starts with `p` as `l`
/// does.
proof fn lemma_starts_join(l: Seq<char>, r: Seq<char>, p: Seq<char>)
    requires
        l.len() >= p.len(),
    ensures
        starts(l + r, p) == starts(l, p),
{
    assert((l + r).take(p.len() as int) =~= l.take(p.len() as int));
}

/// A newline, then a text with `p`'s first character only at its start.
proof fn lemma_occ_nl(s: Seq<char>, p: Seq<char>)
    requires
        p.len() > 0,
        p[0] == '<',
        s.len() > 1,
        s[0] == '\n',
        !s.drop_first().drop_first().contains('<'),
    ensures
        occ(s, p) == one_if(starts(s.drop_first(), p)),
{
    lemma_occ_skip_first(s, p);
    lemma_occ_head(s.drop_first(), p);
}

proof fn lemma_close_div()
    ensures
        div_balance("\n</div>\n\n"@) == -1,
        details_balance("\n</div>\n\n"@) == 0,
{
    let s = "\n</div>\n\n"@;
    reveal_strlit("\n</div>\n\n");
    reveal_strlit("<div");
    reveal_strlit("</div>");
    reveal_strlit("<details");
    reveal_strlit("</details>");
    lemma_occ_nl(s, "<div"@);
    lemma_occ_nl(s, "</div>"@);
    lemma_occ_nl(s, "<details"@);
    lemma_occ_nl(s, "</details>"@);
    assert(s.drop_first().take(6) =~= "</div>"@);
    assert(s.drop_first().take(4)[1] != "<div"@[1]);
    assert(s.drop_first().take(8)[1] != "<details"@[1]);
}

proof fn lemma_close_details()
    ensures
        div_balance("\n</details>\n\n"@) == 0,
        details_balance("\n</details>\n\n"@) == -1,
{
    let s = "\n</details>\n\n"@;
    reveal_strlit("\n</details>\n\n");
    reveal_strlit("<div");
    reveal_strlit("</div>");
    reveal_strlit("<details");
    reveal_strlit("</details>");
    lemma_occ_nl(s, "<div"@);
    lemma_occ_nl(s, "</div>"@);
    lemma_occ_nl(s, "<details"@);
    lemma_occ_nl(s, "</details>"@);
    assert(s.drop_first().take(10) =~= "</details>"@);
    assert(s.drop_first().take(4)[1] != "<div"@[1]);
    assert(s.drop_first().take(6)[3] != "</div>"@[3]);
    assert(s.drop_first().take(8)[1] != "<details"@[1]);
}

proof fn lemma_close_code_group()
    ensures
        div_balance("\n</div>\n</div>\n\n"@) == -2,
        details_balance("\n</div>\n</div>\n\n"@) == 0,
{
    let s = "\n</div>\n</div>\n\n"@;
    let a = "\n</div>\n"@;
    let b = "</div>\n\n"@;
    reveal_strlit("\n</div>\n</div>\n\n");
    reveal_strlit("\n</div>\n");
    reveal_strlit("</div>\n\n");
    reveal_strlit("<div");
    reveal_strlit("</div>");
    reveal_strlit("<details");
    reveal_strlit("</details>");
    assert(s =~= a + b);
    lemma_tags_like();
    lemma_occ_join(a, b, "<div"@);
    lemma_occ_join(a, b, "</div>"@);
    lemma_occ_join(a, b, "<details"@);
    lemma_occ_join(a, b, "</details>"@);
    lemma_occ_nl(a, "<div"@);
    lemma_occ_nl(a, "</div>"@);
    lemma_occ_nl(a, "<details"@);
    lemma_occ_nl(a, "</details>"@);
    lemma_occ_head(b, "<div"@);
    lemma_occ_head(b, "</div>"@);
    lemma_occ_head(b, "<details"@);
    lemma_occ_head(b, "</details>"@);
    assert(a.drop_first().take(6) =~= "</div>"@);
    assert(a.drop_first().take(4)[1] != "<div"@[1]);
    assert(b.take(6) =~= "</div>"@);
    assert(b.take(4)[1] != "<div"@[1]);
    assert(b.take(8)[1] != "<details"@[1]);
}

/// What a container's closing markup does to the balances, and it is
/// empty or ends a line.
pub proof fn lemma_close_markup(o: OpenContainer)
    ensures
        div_balance(close_markup(o)) == -div_depth(o),
        details_balance(close_markup(o)) == -details_depth(o),
        close_markup(o).len() == 0 || close_markup(o).last() == '\n',
{
    reveal_strlit("\n</div>\n\n");
    reveal_strlit("\n</details>\n\n");
    reveal_strlit("\n</div>\n</div>\n\n");
    match o {
        OpenContainer::Tip => lemma_close_div(),
        OpenContainer::Raw => lemma_close_div(),
        OpenContainer::Details => lemma_close_details(),
        OpenContainer::CodeGroup => lemma_close_code_group(),
        OpenContainer::VPre => {},
    }
}


/// A tip-style container's opening markup holds `p` only where its
/// leading `<div` does.
proof fn lemma_tip_occ(kind: Seq<char>, has_title: bool, x: Seq<char>, p: Seq<char>)
    requires
        tag_like(p),
        occ(kind, p) == 0,
    ensures
        occ(
            "<div class=\"custom-block "@ + kind + "\">\n"@ + (if has_title {
                "<p class=\"custom-block-title\">"@ + escape_seq(x) + "</p>\n"@
            } else {
                Seq::empty()
            }) + "\n"@,
            p,
        ) == one_if(starts("<div class=\"custom-block "@, p)),
{
    let l = "<div class=\"custom-block "@;
    let q = "\">\n"@;
    let d = "<p class=\"custom-block-title\">"@;
    let e = "</p>\n"@;
    let nl = "\n"@;
    reveal_strlit("<div class=\"custom-block ");
    reveal_strlit("\">\n");
    reveal_strlit("<p class=\"custom-block-title\">");
    reveal_strlit("</p>\n");
    reveal_strlit("\n");
    reveal_strlit("</p>\n\n");
    let tl = if has_title {
        d + escape_seq(x) + e
    } else {
        Seq::empty()
    };
    let tail = tl + nl;
    let r = kind + (q + tail);
    assert(l + kind + q + tl + nl =~= l + r);
    assert(!l.drop_first().contains('<'));
    lemma_occ_lead(l, r, p);
    lemma_starts_join(l, r, p);
    assert((q + tail)[0] == '"');
    lemma_occ_join(kind, q + tail, p);
    assert(!q.contains('<'));
    lemma_occ_prefix_free(q, tail, p);
    if has_title {
        assert(tail =~= d + (escape_seq(x) + "</p>\n\n"@));
        assert(!"</p>\n\n"@.drop_first().contains('<'));
        assert(!d.drop_first().contains('<'));
        lemma_occ_wrapped(d, x, "</p>\n\n"@, p);
    } else {
        assert(tail =~= nl);
        lemma_occ_short(tail, p);
    }
}

/// A details container's opening markup holds `p` only where its
/// leading `<details` does.
proof fn lemma_details_occ(open: bool, summary: Seq<char>, p: Seq<char>)
    requires
        tag_like(p),
    ensures
        occ(
            "<details class=\"custom-block details\""@ + (if open {
                " open"@
            } else {
                Seq::empty()
            }) + ">\n<summary>"@ + escape_seq(summary) + "</summary>\n\n"@,
            p,
        ) == one_if(starts("<details class=\"custom-block details\""@, p)),
{
    let l = "<details class=\"custom-block details\""@;
    let o: Seq<char> = if open {
        " open"@
    } else {
        Seq::empty()
    };
    let nl = ">\n"@;
    let d = "<summary>"@;
    let b = "</summary>\n\n"@;
    reveal_strlit("<details class=\"custom-block details\"");
    reveal_strlit(" open");
    reveal_strlit(">\n<summary>");
    reveal_strlit(">\n");
    reveal_strlit("<summary>");
    reveal_strlit("</summary>\n\n");
    let e = escape_seq(summary);
    let r = o + (nl + (d + (e + b)));
    assert(">\n<summary>"@ =~= nl + d);
    assert(l + o + ">\n<summary>"@ + e + b =~= l + r);
    assert(!l.drop_first().contains('<'));
    lemma_occ_lead(l, r, p);
    lemma_starts_join(l, r, p);
    assert(!o.contains('<'));
    lemma_occ_prefix_free(o, nl + (d + (e + b)), p);
    assert(!nl.contains('<'));
    lemma_occ_prefix_free(nl, d + (e + b), p);
    assert(!d.drop_first().contains('<'));
    assert(!b.drop_first().contains('<'));
    lemma_occ_wrapped(d, summary, b, p);
}

proof fn lemma_open_raw()
    ensures
        div_balance("<div class=\"vp-raw\">\n\n"@) == 1,
        details_balance("<div class=\"vp-raw\">\n\n"@) == 0,
{
    let s = "<div class=\"vp-raw\">\n\n"@;
    reveal_strlit("<div class=\"vp-raw\">\n\n");
    reveal_strlit("<div");
    reveal_strlit("</div>");
    reveal_strlit("<details");
    reveal_strlit("</details>");
    assert(!s.drop_first().contains('<'));
    lemma_occ_head(s, "<div"@);
    lemma_occ_head(s, "</div>"@);
    lemma_occ_head(s, "<details"@);
    lemma_occ_head(s, "</details>"@);
    assert(s.take(4) =~= "<div"@);
    assert(s.take(6)[1] != "</div>"@[1]);
    assert(s.take(8)[2] != "<details"@[2]);
    assert(s.take(10)[1] != "</details>"@[1]);
}

proof fn lemma_open_code_group()
    ensures
        div_balance("<div class=\"vp-code-group\">\n<div class=\"blocks\">\n\n"@) == 2,
        details_balance("<div class=\"vp-code-group\">\n<div class=\"blocks\">\n\n"@) == 0,
{
    let s = "<div class=\"vp-code-group\">\n<div class=\"blocks\">\n\n"@;
    let a = "<div class=\"vp-code-group\">\n"@;
    let b = "<div class=\"blocks\">\n\n"@;
    reveal_strlit("<div class=\"vp-code-group\">\n<div class=\"blocks\">\n\n");
    reveal_strlit("<div class=\"vp-code-group\">\n");
    reveal_strlit("<div class=\"blocks\">\n\n");
    reveal_strlit("<div");
    reveal_strlit("</div>");
    reveal_strlit("<details");
    reveal_strlit("</details>");
    assert(s =~= a + b);
    lemma_tags_like();
    lemma_occ_join(a, b, "<div"@);
    lemma_occ_join(a, b, "</div>"@);
    lemma_occ_join(a, b, "<details"@);
    lemma_occ_join(a, b, "</details>"@);
    assert(!a.drop_first().contains('<'));
    assert(!b.drop_first().contains('<'));
    lemma_occ_head(a, "<div"@);
    lemma_occ_head(a, "</div>"@);
    lemma_occ_head(a, "<details"@);
    lemma_occ_head(a, "</details>"@);
    lemma_occ_head(b, "<div"@);
    lemma_occ_head(b, "</div>"@);
    lemma_occ_head(b, "<details"@);
    lemma_occ_head(b, "</details>"@);
    assert(a.take(4) =~= "<div"@);
    assert(a.take(6)[1] != "</div>"@[1]);
    assert(a.take(8)[2] != "<details"@[2]);
    assert(a.take(10)[1] != "</details>"@[1]);
    assert(b.take(4) =~= "<div"@);
    assert(b.take(6)[1] != "</div>"@[1]);
    assert(b.take(8)[2] != "<details"@[2]);
    assert(b.take(10)[1] != "</details>"@[1]);
}


/// What a container's opening markup does to the balances, for a kind
/// holding none of the tags; the markup is empty or ends a line.
pub proof fn lemma_open_markup(kind: Seq<char>, rest: Seq<char>)
    requires
        tag_free(kind),
    ensures
        div_balance(open_markup(kind, rest).0) == div_depth(open_markup(kind, rest).1),
        details_balance(open_markup(kind, rest).0) == details_depth(open_markup(kind, rest).1),
        open_markup(kind, rest).0.len() == 0 || open_markup(kind, rest).0.last() == '\n',
{
    let m = open_markup(kind, rest).0;
    reveal_strlit("<div");
    reveal_strlit("</div>");
    reveal_strlit("<details");
    reveal_strlit("</details>");
    reveal_strlit("<div class=\"vp-raw\">\n\n");
    reveal_strlit("<div class=\"vp-code-group\">\n<div class=\"blocks\">\n\n");
    reveal_strlit("\n");
    reveal_strlit("</summary>\n\n");
    lemma_tags_like();
    if kind == "v-pre"@ {
    } else if kind == "raw"@ {
        lemma_open_raw();
    } else if kind == "code-group"@ {
        lemma_open_code_group();
    } else if kind == "details"@ {
        let (summary, open) = spec_parse_details_rest(rest);
        let l = "<details class=\"custom-block details\""@;
        reveal_strlit("<details class=\"custom-block details\"");
        lemma_details_occ(open, summary, "<div"@);
        lemma_details_occ(open, summary, "</div>"@);
        lemma_details_occ(open, summary, "<details"@);
        lemma_details_occ(open, summary, "</details>"@);
        assert(l.take(8) =~= "<details"@);
        assert(l.take(4)[2] != "<div"@[2]);
        assert(l.take(6)[1] != "</div>"@[1]);
        assert(l.take(10)[1] != "</details>"@[1]);
    } else {
        let (no_title, title) = spec_parse_tip_rest(rest);
        let x = match title {
            Some(t) => t,
            None => spec_to_uppercase(kind),
        };
        let l = "<div class=\"custom-block "@;
        reveal_strlit("<div class=\"custom-block ");
        lemma_tip_occ(kind, !no_title, x, "<div"@);
        lemma_tip_occ(kind, !no_title, x, "</div>"@);
        lemma_tip_occ(kind, !no_title, x, "<details"@);
        lemma_tip_occ(kind, !no_title, x, "</details>"@);
        assert(l.take(4) =~= "<div"@);
        assert(l.take(6)[1] != "</div>"@[1]);
        assert(l.take(8)[2] != "<details"@[2]);
        assert(l.take(10)[1] != "</details>"@[1]);
    }
}


/// The kind of a container marker line is part of the line, so it holds
/// no tag the line does not.
proof fn lemma_kind_tag_free(bare: Seq<char>)
    requires
        tag_free(bare),
        spec_opening_container(trim(bare)) is Some,
    ensures
        tag_free(spec_opening_container(trim(bare))->Some_0.1),
{
    let t = trim(bare);
    let colons = run_len(t, ':');
    let rest = trim(t.skip(colons as int));
    let k = first_ws(rest);
    lemma_run_len_le(t, ':');
    lemma_first_ws_bounds(rest);
    lemma_tags_like();
    assert(t.skip(colons as int) =~= t.subrange(colons as int, t.len() as int));
    assert(rest.take(k) =~= rest.subrange(0, k));
    lemma_kind_part(bare, t, colons as int, rest, k, "<div"@);
    lemma_kind_part(bare, t, colons as int, rest, k, "</div>"@);
    lemma_kind_part(bare, t, colons as int, rest, k, "<details"@);
    lemma_kind_part(bare, t, colons as int, rest, k, "</details>"@);
}

proof fn lemma_kind_part(bare: Seq<char>, t: Seq<char>, c: int, rest: Seq<char>, k: int, p: Seq<char>)
    requires
        tag_like(p),
        occ(bare, p) == 0,
        t == trim(bare),
        0 <= c <= t.len(),
        rest == trim(t.subrange(c, t.len() as int)),
        0 <= k <= rest.len(),
    ensures
        occ(rest.subrange(0, k), p) == 0,
{
    lemma_occ_trim(bare, p);
    lemma_occ_part(t, c, t.len() as int, p);
    lemma_occ_trim(t.subrange(c, t.len() as int), p);
    lemma_occ_part(rest, 0, k, p);
}

/// Opening `<div`s less closing `</div>`s, over the open containers.
pub open spec fn stack_divs(st: Seq<(usize, OpenContainer)>) -> int
    decreases st.len(),
{
    if st.len() == 0 {
        0
    } else {
        stack_divs(st.drop_last()) + div_depth(st.last().1)
    }
}

pub open spec fn stack_details(st: Seq<(usize, OpenContainer)>) -> int
    decreases st.len(),
{
    if st.len() == 0 {
        0
    } else {
        stack_details(st.drop_last()) + details_depth(st.last().1)
    }
}

/// The container pass's state is balanced: what is written so far ends a
/// line, and it opens exactly the tags its open containers still owe.
pub open spec fn scan_balanced(st: ContainerScan) -> bool {
    &&& (st.0.len() == 0 || st.0.last() == '\n')
    &&& div_balance(st.0) == stack_divs(st.1)
    &&& details_balance(st.0) == stack_details(st.1)
}

/// Appending to a text that ends a line adds the balances.
proof fn lemma_append(out: Seq<char>, piece: Seq<char>)
    requires
        out.len() == 0 || out.last() == '\n',
    ensures
        div_balance(out + piece) == div_balance(out) + div_balance(piece),
        details_balance(out + piece) == details_balance(out) + details_balance(piece),
{
    lemma_tags_like();
    lemma_occ_join(out, piece, "<div"@);
    lemma_occ_join(out, piece, "</div>"@);
    lemma_occ_join(out, piece, "<details"@);
    lemma_occ_join(out, piece, "</details>"@);
}

/// A copied line (with its newline) leaves the balances as they were.
proof fn lemma_copy_line(out: Seq<char>, bare: Seq<char>)
    requires
        out.len() == 0 || out.last() == '\n',
        tag_free(bare),
    ensures
        div_balance(out + bare + "\n"@) == div_balance(out),
        details_balance(out + bare + "\n"@) == details_balance(out),
        (out + bare + "\n"@).last() == '\n',
{
    reveal_strlit("\n");
    let piece = bare + "\n"@;
    assert(out + bare + "\n"@ =~= out + piece);
    lemma_append(out, piece);
    lemma_tags_like();
    lemma_occ_join(bare, "\n"@, "<div"@);
    lemma_occ_join(bare, "\n"@, "</div>"@);
    lemma_occ_join(bare, "\n"@, "<details"@);
    lemma_occ_join(bare, "\n"@, "</details>"@);
    reveal_strlit("<div");
    reveal_strlit("</div>");
    reveal_strlit("<details");
    reveal_strlit("</details>");
}

proof fn lemma_step_balanced(st: ContainerScan, bare: Seq<char>)
    requires
        scan_balanced(st),
        tag_free(bare),
    ensures
        scan_balanced(container_step(st, bare)),
{
    let (out, stack, fence) = st;
    lemma_copy_line(out, bare);
    match fence {
        Some(_) => {},
        None => match spec_opening_fence(bare) {
            Some(_) => {},
            None => {
                let t = trim(bare);
                match spec_closing_container(t) {
                    Some(colons) => if stack.len() > 0 && colons >= stack.last().0 {
                        let cm = close_markup(stack.last().1);
                        lemma_close_markup(stack.last().1);
                        lemma_append(out, cm);
                        if cm.len() > 0 {
                            assert((out + cm).last() == cm.last());
                        } else {
                            assert(out + cm =~= out);
                        }
                    },
                    None => match spec_opening_container(t) {
                        Some((colons, kind, tail)) => {
                            lemma_kind_tag_free(bare);
                            let (m, o) = open_markup(kind, trim(tail));
                            lemma_open_markup(kind, trim(tail));
                            lemma_append(out, m);
                            assert(stack.push((colons, o)).drop_last() =~= stack);
                            if m.len() > 0 {
                                assert((out + m).last() == m.last());
                            } else {
                                assert(out + m =~= out);
                            }
                        },
                        None => {},
                    },
                }
            },
        },
    }
}


proof fn lemma_fold_balanced(lines: Seq<Seq<char>>)
    requires
        forall|k: int| 0 <= k < lines.len() ==> tag_free(#[trigger] lines[k]),
    ensures
        scan_balanced(container_fold(lines)),
    decreases lines.len(),
{
    if lines.len() > 0 {
        lemma_fold_balanced(lines.drop_last());
        assert(tag_free(lines[lines.len() - 1]));
        lemma_step_balanced(container_fold(lines.drop_last()), lines.last());
    }
}

proof fn lemma_close_all_balanced(out: Seq<char>, stack: Seq<(usize, OpenContainer)>)
    requires
        scan_balanced((out, stack, None)),
    ensures
        div_balance(close_all(out, stack)) == 0,
        details_balance(close_all(out, stack)) == 0,
        close_all(out, stack).len() == 0 || close_all(out, stack).last() == '\n',
    decreases stack.len(),
{
    if stack.len() > 0 {
        let cm = close_markup(stack.last().1);
        lemma_close_markup(stack.last().1);
        lemma_append(out, cm);
        if cm.len() > 0 {
            assert((out + cm).last() == cm.last());
        } else {
            assert(out + cm =~= out);
        }
        lemma_close_all_balanced(out + cm, stack.drop_last());
    }
}

proof fn lemma_trim_end_nl_occ(s: Seq<char>, p: Seq<char>)
    requires
        p.len() > 0,
    ensures
        occ(trim_end_nl(s), p) <= occ(s, p),
    decreases s.len(),
{
    if s.len() > 0 && (s.last() == '\n' || s.last() == '\r') {
        lemma_trim_end_nl_occ(s.drop_last(), p);
        lemma_occ_part(s, 0, s.len() - 1, p);
        assert(s.subrange(0, s.len() - 1) =~= s.drop_last());
    }
}

proof fn lemma_lines_occ(s: Seq<char>, i: int, k: int, p: Seq<char>)
    requires
        p.len() > 0,
        0 <= k < lines_from(s, i).len(),
    ensures
        occ(lines_from(s, i)[k], p) <= occ(s, p),
    decreases s.len() - i,
{
    if 0 <= i < s.len() {
        let e = line_end(s, i);
        lemma_line_end_bounds(s, i);
        if k == 0 {
            lemma_occ_part(s, i, e, p);
        } else {
            lemma_lines_occ(s, e, k - 1, p);
        }
    }
}

/// Every line of a text without the tags is without them.
proof fn lemma_bare_lines_tag_free(md: Seq<char>)
    requires
        tag_free(md),
    ensures
        forall|k: int| 0 <= k < bare_lines(md).len() ==> tag_free(#[trigger] bare_lines(md)[k]),
{
    lemma_tags_like();
    assert forall|k: int| 0 <= k < bare_lines(md).len() implies tag_free(#[trigger] bare_lines(md)[k]) by {
        let l = split_lines(md)[k];
        assert(bare_lines(md)[k] == trim_end_nl(l));
        lemma_lines_occ(md, 0, k, "<div"@);
        lemma_lines_occ(md, 0, k, "</div>"@);
        lemma_lines_occ(md, 0, k, "<details"@);
        lemma_lines_occ(md, 0, k, "</details>"@);
        lemma_trim_end_nl_occ(l, "<div"@);
        lemma_trim_end_nl_occ(l, "</div>"@);
        lemma_trim_end_nl_occ(l, "<details"@);
        lemma_trim_end_nl_occ(l, "</details>"@);
    }
}

/// The container pass closes every tag it opens: on a text holding none
/// of the tags itself, the output holds as many `<div` as `</div>` and
/// as many `<details` as `</details>` (containers still open at the end
/// are closed there), and it ends with a newline.
pub proof fn law_containers_close_their_tags(md: Seq<char>)
    requires
        tag_free(md),
    ensures
        occ(spec_expand_containers(md), "<div"@) == occ(spec_expand_containers(md), "</div>"@),
        occ(spec_expand_containers(md), "<details"@) == occ(spec_expand_containers(md), "</details>"@),
        spec_expand_containers(md).last() == '\n',
{
    let lines = bare_lines(md);
    lemma_bare_lines_tag_free(md);
    lemma_fold_balanced(lines);
    let st = container_fold(lines);
    lemma_close_all_balanced(st.0, st.1);
    reveal_strlit("\n");
    reveal_strlit("<div");
    reveal_strlit("</div>");
    reveal_strlit("<details");
    reveal_strlit("</details>");
}

} // verus!
