//! The bundled UI themes: the file stems of the stylesheets under
//! `themes/` among the theme's embedded files.

use vstd::prelude::*;

use crate::text::{
    ends_with, ends_with_str, from_chars, ix, lemma_lex_irreflexive, lemma_lex_total, lemma_lex_transitive,
    lex_lt, lex_lt_v, slice_of, starts_with, starts_with_str, to_chars,
};

verus! {

broadcast use vstd::string::group_string_axioms;

/// The theme a file path names: `themes/<name>.css` → `<name>`.
pub open spec fn theme_name_of(rel: Seq<char>) -> Option<Seq<char>> {
    if starts_with(rel, "themes/"@) {
        let r = rel.skip(7);
        if ends_with(r, ".css"@) {
            Some(r.take(r.len() - 4))
        } else {
            None
        }
    } else {
        None
    }
}

/// The theme names among the files, in file order.
pub open spec fn themes_of(files: Seq<Seq<char>>) -> Seq<Seq<char>>
    decreases files.len(),
{
    if files.len() == 0 {
        Seq::empty()
    } else {
        let prev = themes_of(files.drop_last());
        match theme_name_of(files.last()) {
            Some(n) => prev.push(n),
            None => prev,
        }
    }
}

/// `x` placed after every element not after it in code point order.
pub open spec fn insert_lex(s: Seq<Seq<char>>, x: Seq<char>) -> Seq<Seq<char>>
    decreases s.len(),
{
    if s.len() == 0 {
        seq![x]
    } else if lex_lt(x, s.last()) {
        insert_lex(s.drop_last(), x).push(s.last())
    } else {
        s.push(x)
    }
}

/// `s` sorted ascending in code point order (`slice::sort` on strings).
pub open spec fn sort_lex(s: Seq<Seq<char>>) -> Seq<Seq<char>>
    decreases s.len(),
{
    if s.len() == 0 {
        s
    } else {
        insert_lex(sort_lex(s.drop_last()), s.last())
    }
}

/// Ascending: no element comes after a later one.
pub open spec fn ascending(s: Seq<Seq<char>>) -> bool {
    forall|i: int, j: int| 0 <= i < j < s.len() ==> !lex_lt(#[trigger] s[j], #[trigger] s[i])
}

proof fn lemma_insert_lex_at(s: Seq<Seq<char>>, x: Seq<char>, j: int)
    requires
        0 <= j <= s.len(),
        forall|k: int| j <= k < s.len() ==> lex_lt(x, #[trigger] s[k]),
        j == 0 || !lex_lt(x, s[j - 1]),
    ensures
        insert_lex(s, x) == s.take(j).push(x) + s.skip(j),
    decreases s.len(),
{
    if s.len() == 0 {
        assert(s.take(j).push(x) + s.skip(j) =~= seq![x]);
    } else if j == s.len() {
        assert(s.take(j).push(x) + s.skip(j) =~= s.push(x));
    } else {
        let d = s.drop_last();
        assert forall|k: int| j <= k < d.len() implies lex_lt(x, #[trigger] d[k]) by {
            assert(d[k] == s[k]);
        }
        if j > 0 {
            assert(d[j - 1] == s[j - 1]);
        }
        lemma_insert_lex_at(d, x, j);
        assert(d.take(j).push(x) + d.skip(j) + seq![s.last()] =~= s.take(j).push(x) + s.skip(j));
        assert(insert_lex(d, x).push(s.last()) =~= insert_lex(d, x) + seq![s.last()]);
    }
}

/// Names of the bundled UI themes (stems of `themes/*.css` among the
/// embedded files), sorted.
pub fn bundled_themes(files: &Vec<String>) -> (r: Vec<String>)
    ensures
        r.deep_view() == sort_lex(themes_of(files.deep_view())),
        ascending(r.deep_view()),
{
    let ghost fd = files.deep_view();
    let mut out: Vec<String> = Vec::new();
    let mut i: usize = 0;
    assert(fd.take(0) =~= Seq::<Seq<char>>::empty());
    assert(out.deep_view() =~= Seq::<Seq<char>>::empty());
    while i < files.len()
        invariant
            i <= files.len(),
            fd == files.deep_view(),
            out.deep_view() == sort_lex(themes_of(fd.take(ix(i)))),
            ascending(out.deep_view()),
        decreases files.len() - i,
    {
        let f = to_chars(files[i].as_str());
        assert(fd[ix(i)] == f@);
        assert(fd.take(ix(i) + 1).drop_last() =~= fd.take(ix(i)));
        assert(fd.take(ix(i) + 1).last() == f@);
        proof {
            reveal_strlit("themes/");
            reveal_strlit(".css");
        }
        if starts_with_str(&f, "themes/") {
            let r = slice_of(&f, 7, f.len());
            assert(r@ =~= f@.skip(7));
            if ends_with_str(&r, ".css") {
                let n = slice_of(&r, 0, r.len() - 4);
                assert(n@ =~= r@.take(r@.len() - 4));
                let ns = from_chars(&n);
                proof {
                    let prev = themes_of(fd.take(ix(i)));
                    assert(theme_name_of(f@) == Some(n@));
                    assert(prev.push(n@).drop_last() =~= prev);
                }
                insert_sorted(&mut out, ns);
            }
        }
        i += 1;
    }
    assert(fd.take(ix(i)) =~= fd);
    out
}

/// Insert into an ascending list after every element not after `x`.
pub fn insert_sorted(out: &mut Vec<String>, x: String)
    requires
        ascending(old(out).deep_view()),
    ensures
        final(out).deep_view() == insert_lex(old(out).deep_view(), x@),
        ascending(final(out).deep_view()),
{
    let ghost od = out.deep_view();
    let xv = to_chars(x.as_str());
    let mut j: usize = out.len();
    while j > 0 && lex_lt_v(&xv, &to_chars(out[j - 1].as_str()))
        invariant
            j <= out.len(),
            od == out.deep_view(),
            xv@ == x@,
            forall|k: int| j <= k < od.len() ==> lex_lt(x@, #[trigger] od[k]),
        decreases j,
    {
        assert(od[ix(j) - 1] == out@[ix(j) - 1]@);
        j -= 1;
    }
    proof {
        if j > 0 {
            assert(od[ix(j) - 1] == out@[ix(j) - 1]@);
        }
        lemma_insert_lex_at(od, x@, ix(j));
    }
    let ghost xs = x@;
    let ghost ov = out@;
    out.insert(j, x);
    proof {
        let nd = out.deep_view();
        assert(nd =~= od.take(ix(j)).push(xs) + od.skip(ix(j))) by {
            assert forall|m: int| 0 <= m < nd.len() implies #[trigger] nd[m] == (od.take(ix(j)).push(xs)
                + od.skip(ix(j)))[m] by {
                if m < j {
                    assert(out@[m] == ov[m]);
                } else if m > j {
                    assert(out@[m] == ov[m - 1]);
                }
            }
        }
        assert forall|a: int, b: int| 0 <= a < b < nd.len() implies !lex_lt(#[trigger] nd[b], #[trigger] nd[a]) by {
            if a < j && b < j {
                assert(nd[a] == od[a] && nd[b] == od[b]);
            } else if a < j && b == j {
                assert(nd[a] == od[a]);
                assert(!lex_lt(xs, od[ix(j) - 1]));
                if lex_lt(xs, od[a]) {
                    if a < j - 1 {
                        lemma_lex_total(od[a], od[ix(j) - 1]);
                        if lex_lt(od[a], od[ix(j) - 1]) {
                            lemma_lex_transitive(xs, od[a], od[ix(j) - 1]);
                        }
                    }
                }
            } else if a < j && b > j {
                assert(nd[a] == od[a] && nd[b] == od[b - 1]);
            } else if a == j {
                assert(nd[b] == od[b - 1]);
                assert(lex_lt(xs, od[b - 1]));
                if lex_lt(od[b - 1], xs) {
                    lemma_lex_transitive(xs, od[b - 1], xs);
                    lemma_lex_irreflexive(xs);
                }
            } else {
                assert(nd[a] == od[a - 1] && nd[b] == od[b - 1]);
            }
        }
    }
}

} // verus!
