//! Helix TOML themes as the syntax colour scheme format, resolved.
//!
//! A theme maps dotted tree-sitter capture scopes to styles. Resolution
//! follows Helix: a capture name matches the longest defined scope
//! prefix (`function.builtin` → `function` → nothing), and colours
//! resolve through the theme's `[palette]` or are literal hex values.
//! An inheritance chain (root first, the named theme last) merges its
//! palettes leaf-wins and resolves every style against the merged
//! palette.

use vstd::prelude::*;

use crate::markdown::preprocess::{last_index_of, last_index_of_v, lemma_last_index_of};
use crate::text::{
    ends_with, ends_with_str, eq_str, eq_v, from_chars, ix, lex_lt, lex_lt_v, lemma_lex_total, lemma_lex_transitive,
    slice_of, starts_with_str, to_chars,
};

verus! {

broadcast use vstd::string::group_string_axioms;

/// One resolved style for a capture scope.
#[derive(Debug)]
pub struct ThemeStyle {
    pub fg: Option<String>,
    pub bg: Option<String>,
    pub bold: bool,
    pub italic: bool,
    pub underline: bool,
}

/// A style as plain values: (fg, bg, bold, italic, underline).
pub type StyleView = (Option<Seq<char>>, Option<Seq<char>>, bool, bool, bool);

impl View for ThemeStyle {
    type V = StyleView;

    open spec fn view(&self) -> StyleView {
        (self.fg.deep_view(), self.bg.deep_view(), self.bold, self.italic, self.underline)
    }
}

impl Default for ThemeStyle {
    fn default() -> (r: ThemeStyle)
        ensures
            r@ == (None::<Seq<char>>, None::<Seq<char>>, false, false, false),
    {
        ThemeStyle { fg: None, bg: None, bold: false, italic: false, underline: false }
    }
}

fn clone_opt_string(o: &Option<String>) -> (r: Option<String>)
    ensures
        r.deep_view() == o.deep_view(),
{
    match o {
        Some(s) => Some(s.clone()),
        None => None,
    }
}

impl ThemeStyle {
    /// A copy with the same fields.
    pub fn duplicate(&self) -> (r: ThemeStyle)
        ensures
            r@ == self@,
    {
        ThemeStyle {
            fg: clone_opt_string(&self.fg),
            bg: clone_opt_string(&self.bg),
            bold: self.bold,
            italic: self.italic,
            underline: self.underline,
        }
    }
}

/// The map an association list denotes (later entries win).
pub open spec fn styles_map(s: Seq<(String, ThemeStyle)>) -> Map<Seq<char>, StyleView>
    decreases s.len(),
{
    if s.len() == 0 {
        Map::empty()
    } else {
        styles_map(s.drop_last()).insert(s.last().0@, s.last().1@)
    }
}

/// Keys strictly increasing in code point order.
pub open spec fn keys_sorted(s: Seq<(String, ThemeStyle)>) -> bool {
    forall|i: int, j: int| 0 <= i < j < s.len() ==> lex_lt(#[trigger] s[i].0@, #[trigger] s[j].0@)
}

/// A resolved syntax theme: dotted scope → style.
#[derive(Debug)]
pub struct SyntaxTheme {
    styles: Vec<(String, ThemeStyle)>,
}

impl View for SyntaxTheme {
    type V = Map<Seq<char>, StyleView>;

    closed spec fn view(&self) -> Map<Seq<char>, StyleView> {
        styles_map(self.styles@)
    }
}

/// The style a capture resolves to: its own scope, else that of the
/// longest dotted prefix the theme defines.
pub open spec fn resolve_scope(m: Map<Seq<char>, StyleView>, scope: Seq<char>) -> Option<StyleView>
    decreases scope.len(),
{
    if m.dom().contains(scope) {
        Some(m[scope])
    } else {
        let k = last_index_of(scope, '.');
        proof {
            lemma_last_index_of(scope, '.');
        }
        if k >= 0 {
            resolve_scope(m, scope.take(k))
        } else {
            None
        }
    }
}

proof fn lemma_styles_map_dom(s: Seq<(String, ThemeStyle)>, k: Seq<char>)
    ensures
        styles_map(s).dom().contains(k) <==> exists|i: int| 0 <= i < s.len() && (#[trigger] s[i]).0@ == k,
    decreases s.len(),
{
    if s.len() > 0 {
        lemma_styles_map_dom(s.drop_last(), k);
        if exists|i: int| 0 <= i < s.len() && (#[trigger] s[i]).0@ == k {
            let i = choose|i: int| 0 <= i < s.len() && (#[trigger] s[i]).0@ == k;
            if i < s.len() - 1 {
                assert(s.drop_last()[i] == s[i]);
            }
        }
        if exists|i: int| 0 <= i < s.len() - 1 && (#[trigger] s.drop_last()[i]).0@ == k {
            let i = choose|i: int| 0 <= i < s.len() - 1 && (#[trigger] s.drop_last()[i]).0@ == k;
            assert(s[i] == s.drop_last()[i]);
        }
    }
}

/// With distinct keys, the entry at `i` gives the map's value there.
proof fn lemma_styles_map_at(s: Seq<(String, ThemeStyle)>, i: int)
    requires
        keys_sorted(s),
        0 <= i < s.len(),
    ensures
        styles_map(s).dom().contains(s[i].0@),
        styles_map(s)[s[i].0@] == s[i].1@,
    decreases s.len(),
{
    lemma_styles_map_dom(s, s[i].0@);
    if i < s.len() - 1 {
        let d = s.drop_last();
        assert(keys_sorted(d)) by {
            assert forall|a: int, b: int| 0 <= a < b < d.len() implies lex_lt(#[trigger] d[a].0@, #[trigger] d[b].0@) by {
                assert(d[a] == s[a] && d[b] == s[b]);
            }
        }
        assert(d[i] == s[i]);
        lemma_styles_map_at(d, i);
        assert(lex_lt(s[i].0@, s.last().0@));
        crate::text::lemma_lex_irreflexive(s[i].0@);
    }
}

impl Default for SyntaxTheme {
    fn default() -> (r: SyntaxTheme)
        ensures
            r.wf(),
            r@ == Map::<Seq<char>, StyleView>::empty(),
    {
        SyntaxTheme::new()
    }
}

impl SyntaxTheme {
    /// Keys strictly sorted: the theme's well-formedness.
    pub closed spec fn wf(&self) -> bool {
        keys_sorted(self.styles@)
    }

    /// An empty theme.
    pub fn new() -> (r: SyntaxTheme)
        ensures
            r.wf(),
            r@ == Map::<Seq<char>, StyleView>::empty(),
    {
        let r = SyntaxTheme { styles: Vec::new() };
        assert(r@ =~= Map::<Seq<char>, StyleView>::empty());
        r
    }

    /// Set the style of a scope.
    pub fn insert(&mut self, scope: String, style: ThemeStyle)
        requires
            old(self).wf(),
        ensures
            final(self).wf(),
            final(self)@ == old(self)@.insert(scope@, style@),
    {
        let ghost s0 = self.styles@;
        let key = to_chars(scope.as_str());
        let mut j: usize = 0;
        while j < self.styles.len() && lex_lt_v(&to_chars(self.styles[j].0.as_str()), &key)
            invariant
                j <= self.styles.len(),
                self.styles@ == s0,
                key@ == scope@,
                forall|m: int| 0 <= m < j ==> lex_lt(#[trigger] s0[m].0@, scope@),
            decreases self.styles.len() - j,
        {
            j += 1;
        }
        if j < self.styles.len() && eq_v(&to_chars(self.styles[j].0.as_str()), &key) {
            let ghost sv = style@;
            self.styles.set(j, (scope, style));
            proof {
                let s1 = self.styles@;
                assert(keys_sorted(s1)) by {
                    assert forall|a: int, b: int| 0 <= a < b < s1.len() implies lex_lt(#[trigger] s1[a].0@, #[trigger] s1[b].0@) by {
                        assert(s1[a].0@ == s0[a].0@ && s1[b].0@ == s0[b].0@);
                    }
                }
                lemma_map_replace(s0, s1, ix(j));
            }
        } else {
            proof {
                if j < s0.len() {
                    lemma_lex_total(s0[ix(j)].0@, scope@);
                    assert forall|m: int| j <= m < s0.len() implies lex_lt(scope@, #[trigger] s0[m].0@) by {
                        if m > j {
                            lemma_lex_transitive(scope@, s0[ix(j)].0@, s0[m].0@);
                        }
                    }
                }
            }
            self.styles.insert(j, (scope, style));
            proof {
                let s1 = self.styles@;
                assert(keys_sorted(s1)) by {
                    assert forall|a: int, b: int| 0 <= a < b < s1.len() implies lex_lt(#[trigger] s1[a].0@, #[trigger] s1[b].0@) by {
                        if b < j {
                            assert(s1[a] == s0[a] && s1[b] == s0[b]);
                        } else if b == j {
                            assert(s1[a] == s0[a]);
                        } else if a < j {
                            assert(s1[a] == s0[a] && s1[b] == s0[b - 1]);
                            assert(lex_lt(s0[a].0@, s0[b - 1].0@));
                        } else if a == j {
                            assert(s1[b] == s0[b - 1]);
                        } else {
                            assert(s1[a] == s0[a - 1] && s1[b] == s0[b - 1]);
                        }
                    }
                }
                lemma_map_insert_new(s0, s1, ix(j));
            }
        }
    }

    /// The style for a capture: the exact scope, else the longest dotted
    /// prefix the theme defines (Helix's rule).
    pub fn resolve(&self, capture: &str) -> (r: Option<&ThemeStyle>)
        requires
            self.wf(),
        ensures
            match r {
                Some(st) => resolve_scope(self@, capture@) == Some(st@),
                None => resolve_scope(self@, capture@) is None,
            },
    {
        let mut scope = to_chars(capture);
        let ghost goal = resolve_scope(self@, capture@);
        loop
            invariant
                self.wf(),
                goal == resolve_scope(self@, capture@),
                goal == resolve_scope(self@, scope@),
            decreases scope.len(),
        {
            match self.lookup(&scope) {
                Some(k) => {
                    assert(resolve_scope(self@, scope@) == Some(self@[scope@]));
                    return Some(&self.styles[k].1);
                },
                None => {},
            }
            proof {
                lemma_last_index_of(scope@, '.');
            }
            match last_index_of_v(&scope, '.') {
                Some(k) => {
                    let parent = slice_of(&scope, 0, k);
                    assert(parent@ =~= scope@.take(ix(k)));
                    scope = parent;
                },
                None => {
                    assert(resolve_scope(self@, scope@) is None);
                    return None;
                },
            }
        }
    }

    /// The position of `scope`'s entry.
    fn lookup(&self, scope: &Vec<char>) -> (r: Option<usize>)
        requires
            self.wf(),
        ensures
            match r {
                Some(k) => k < self.styles.len() && self@.dom().contains(scope@) && self@[scope@]
                    == self.styles@[ix(k)].1@,
                None => !self@.dom().contains(scope@),
            },
    {
        let mut k: usize = 0;
        while k < self.styles.len()
            invariant
                k <= self.styles.len(),
                self.wf(),
                forall|m: int| 0 <= m < k ==> (#[trigger] self.styles@[m]).0@ != scope@,
            decreases self.styles.len() - k,
        {
            if eq_v(&to_chars(self.styles[k].0.as_str()), scope) {
                proof {
                    lemma_styles_map_at(self.styles@, ix(k));
                }
                return Some(k);
            }
            k += 1;
        }
        proof {
            lemma_styles_map_dom(self.styles@, scope@);
        }
        None
    }

    pub fn is_empty(&self) -> (b: bool)
        requires
            self.wf(),
        ensures
            b == (self@.dom().len() == 0),
    {
        proof {
            lemma_styles_map_len(self.styles@);
        }
        self.styles.len() == 0
    }

    /// The (scope, style) entries in scope order.
    pub fn iter(&self) -> (r: Vec<(String, ThemeStyle)>)
        requires
            self.wf(),
        ensures
            r.len() == self@.dom().len(),
            forall|i: int, j: int| 0 <= i < j < r.len() ==> lex_lt(#[trigger] r@[i].0@, #[trigger] r@[j].0@),
            forall|i: int| 0 <= i < r.len() ==> self@.dom().contains(#[trigger] r@[i].0@) && self@[r@[i].0@]
                == r@[i].1@,
    {
        let mut out: Vec<(String, ThemeStyle)> = Vec::new();
        let mut k: usize = 0;
        while k < self.styles.len()
            invariant
                k <= self.styles.len(),
                self.wf(),
                out.len() == k,
                forall|m: int| 0 <= m < k ==> (#[trigger] out@[m]).0@ == self.styles@[m].0@ && out@[m].1@
                    == self.styles@[m].1@,
            decreases self.styles.len() - k,
        {
            let e = &self.styles[k];
            out.push((e.0.clone(), e.1.duplicate()));
            k += 1;
        }
        proof {
            lemma_styles_map_len(self.styles@);
            assert forall|i: int| 0 <= i < out.len() implies self@.dom().contains(#[trigger] out@[i].0@)
                && self@[out@[i].0@] == out@[i].1@ by {
                lemma_styles_map_at(self.styles@, i);
            }
            assert forall|i: int, j: int| 0 <= i < j < out.len() implies lex_lt(#[trigger] out@[i].0@, #[trigger] out@[j].0@) by {
                assert(lex_lt(self.styles@[i].0@, self.styles@[j].0@));
            }
        }
        out
    }
}

proof fn lemma_styles_map_len(s: Seq<(String, ThemeStyle)>)
    requires
        keys_sorted(s),
    ensures
        styles_map(s).dom().finite(),
        styles_map(s).dom().len() == s.len(),
    decreases s.len(),
{
    if s.len() > 0 {
        let d = s.drop_last();
        assert(keys_sorted(d)) by {
            assert forall|a: int, b: int| 0 <= a < b < d.len() implies lex_lt(#[trigger] d[a].0@, #[trigger] d[b].0@) by {
                assert(d[a] == s[a] && d[b] == s[b]);
            }
        }
        lemma_styles_map_len(d);
        lemma_styles_map_dom(d, s.last().0@);
        if styles_map(d).dom().contains(s.last().0@) {
            let i = choose|i: int| 0 <= i < d.len() && (#[trigger] d[i]).0@ == s.last().0@;
            assert(d[i] == s[i]);
            assert(lex_lt(s[i].0@, s[s.len() - 1].0@));
            crate::text::lemma_lex_irreflexive(s[i].0@);
        }
    }
}

/// Replacing the entry at `j` by one with the same key.
proof fn lemma_map_replace(s0: Seq<(String, ThemeStyle)>, s1: Seq<(String, ThemeStyle)>, j: int)
    requires
        keys_sorted(s0),
        keys_sorted(s1),
        0 <= j < s0.len(),
        s1 == s0.update(j, s1[j]),
        s1[j].0@ == s0[j].0@,
    ensures
        styles_map(s1) == styles_map(s0).insert(s1[j].0@, s1[j].1@),
{
    let k = s1[j].0@;
    let m0 = styles_map(s0);
    let m1 = styles_map(s1);
    assert forall|x: Seq<char>| m1.dom().contains(x) <==> m0.insert(k, s1[j].1@).dom().contains(x) by {
        lemma_styles_map_dom(s0, x);
        lemma_styles_map_dom(s1, x);
        if exists|i: int| 0 <= i < s0.len() && (#[trigger] s0[i]).0@ == x {
            let i = choose|i: int| 0 <= i < s0.len() && (#[trigger] s0[i]).0@ == x;
            assert(s1[i].0@ == x);
        }
        if exists|i: int| 0 <= i < s1.len() && (#[trigger] s1[i]).0@ == x {
            let i = choose|i: int| 0 <= i < s1.len() && (#[trigger] s1[i]).0@ == x;
            assert(s0[i].0@ == x);
        }
    }
    assert forall|x: Seq<char>| #[trigger] m1.dom().contains(x) implies m1[x] == m0.insert(k, s1[j].1@)[x] by {
        lemma_styles_map_dom(s1, x);
        let i = choose|i: int| 0 <= i < s1.len() && (#[trigger] s1[i]).0@ == x;
        lemma_styles_map_at(s1, i);
        if i != j {
            lemma_styles_map_at(s0, i);
            if x == k {
                if i < j {
                    assert(lex_lt(s1[i].0@, s1[j].0@));
                } else {
                    assert(lex_lt(s1[j].0@, s1[i].0@));
                }
                crate::text::lemma_lex_irreflexive(x);
            }
        }
    }
    assert(m1 =~= m0.insert(k, s1[j].1@));
}

/// Inserting a new key's entry at `j`.
proof fn lemma_map_insert_new(s0: Seq<(String, ThemeStyle)>, s1: Seq<(String, ThemeStyle)>, j: int)
    requires
        keys_sorted(s0),
        keys_sorted(s1),
        0 <= j <= s0.len(),
        s1 == s0.insert(j, s1[j]),
    ensures
        styles_map(s1) == styles_map(s0).insert(s1[j].0@, s1[j].1@),
{
    let k = s1[j].0@;
    let m0 = styles_map(s0);
    let m1 = styles_map(s1);
    assert forall|x: Seq<char>| m1.dom().contains(x) <==> m0.insert(k, s1[j].1@).dom().contains(x) by {
        lemma_styles_map_dom(s0, x);
        lemma_styles_map_dom(s1, x);
        if exists|i: int| 0 <= i < s0.len() && (#[trigger] s0[i]).0@ == x {
            let i = choose|i: int| 0 <= i < s0.len() && (#[trigger] s0[i]).0@ == x;
            if i < j {
                assert(s1[i] == s0[i]);
            } else {
                assert(s1[i + 1] == s0[i]);
            }
        }
        if exists|i: int| 0 <= i < s1.len() && (#[trigger] s1[i]).0@ == x {
            let i = choose|i: int| 0 <= i < s1.len() && (#[trigger] s1[i]).0@ == x;
            if i < j {
                assert(s1[i] == s0[i]);
            } else if i > j {
                assert(s1[i] == s0[i - 1]);
            }
        }
    }
    assert forall|x: Seq<char>| #[trigger] m1.dom().contains(x) implies m1[x] == m0.insert(k, s1[j].1@)[x] by {
        lemma_styles_map_dom(s1, x);
        let i = choose|i: int| 0 <= i < s1.len() && (#[trigger] s1[i]).0@ == x;
        lemma_styles_map_at(s1, i);
        if i != j {
            let i0 = if i < j { i } else { i - 1 };
            assert(s0[i0] == s1[i]);
            lemma_styles_map_at(s0, i0);
            if x == k {
                if i < j {
                    assert(lex_lt(s1[i].0@, s1[j].0@));
                } else {
                    assert(lex_lt(s1[j].0@, s1[i].0@));
                }
                crate::text::lemma_lex_irreflexive(x);
            }
        }
    }
    assert(m1 =~= m0.insert(k, s1[j].1@));
}


// ── theme files before resolution ──────────────────────────────────────

/// A style as written in a theme file: colours are palette names or
/// `#` hex literals.
#[derive(Debug)]
pub struct RawStyle {
    pub fg: Option<String>,
    pub bg: Option<String>,
    pub bold: bool,
    pub italic: bool,
    pub underline: bool,
}

/// A parsed theme file before palette and inheritance resolution.
#[derive(Debug)]
pub struct RawTheme {
    pub inherits: Option<String>,
    pub palette: Vec<(String, String)>,
    pub styles: Vec<(String, RawStyle)>,
}

/// Why a theme cannot be loaded.
#[derive(Debug)]
pub enum ThemeError {
    Parse(String),
    UnknownInherit(String),
    Cycle(String),
}


// ── theme files as TOML values ─────────────────────────────────────────

/// A TOML value as theme files use it: strings, arrays and tables;
/// numbers, booleans and dates are `Other`.
#[derive(Debug)]
pub enum TomlValue {
    Str(String),
    Array(Vec<TomlValue>),
    Table(Vec<(String, TomlValue)>),
    Other,
}

#[verifier::external_type_specification]
#[verifier::external_body]
pub struct ExTomlValue(toml::Value);

/// The TOML document `src` parses into, as a `TomlValue`; `None` when it
/// does not parse.
pub uninterp spec fn spec_toml_doc(src: Seq<char>) -> Option<TomlValue>;

/// A `toml::Value` as a `TomlValue`: strings, arrays and tables one for
/// one (in the table's own order), every other kind as `Other`.
#[verifier::external_body]
fn toml_value(v: &toml::Value) -> TomlValue {
    match v {
        toml::Value::String(s) => TomlValue::Str(s.clone()),
        toml::Value::Array(a) => TomlValue::Array(a.iter().map(toml_value).collect()),
        toml::Value::Table(t) => TomlValue::Table(t.iter().map(|(k, v)| (k.clone(), toml_value(v))).collect()),
        _ => TomlValue::Other,
    }
}

/// `toml::from_str` of a whole document into a `toml::Value`, converted
/// by `toml_value`; the result is named by `spec_toml_doc`. Where the
/// text does not parse, the error carries toml's message, of which
/// nothing is stated.
#[verifier::external_body]
fn toml_doc(src: &str) -> (r: Result<TomlValue, String>)
    ensures
        match r {
            Ok(v) => spec_toml_doc(src@) == Some(v),
            Err(_) => spec_toml_doc(src@) is None,
        },
{
    match toml::from_str::<toml::Value>(src) {
        Ok(v) => Ok(toml_value(&v)),
        Err(e) => Err(e.to_string()),
    }
}

pub open spec fn tv_str(v: TomlValue) -> Option<Seq<char>> {
    match v {
        TomlValue::Str(s) => Some(s@),
        _ => None,
    }
}

/// The value under `k` in a table (its first entry with that key).
pub open spec fn tv_get(t: Seq<(String, TomlValue)>, k: Seq<char>) -> Option<TomlValue>
    decreases t.len(),
{
    if t.len() == 0 {
        None
    } else if t[0].0@ == k {
        Some(t[0].1)
    } else {
        tv_get(t.drop_first(), k)
    }
}

/// The string under `k` in a table.
pub open spec fn tv_get_str(t: Seq<(String, TomlValue)>, k: Seq<char>) -> Option<Seq<char>> {
    match tv_get(t, k) {
        Some(v) => tv_str(v),
        None => None,
    }
}

/// The strings of an array, in order.
pub open spec fn tv_strings(a: Seq<TomlValue>) -> Seq<Seq<char>>
    decreases a.len(),
{
    if a.len() == 0 {
        Seq::empty()
    } else {
        match a.last() {
            TomlValue::Str(s) => tv_strings(a.drop_last()).push(s@),
            _ => tv_strings(a.drop_last()),
        }
    }
}

/// The `modifiers` words of a style table.
pub open spec fn modifiers_of(t: Seq<(String, TomlValue)>) -> Seq<Seq<char>> {
    match tv_get(t, "modifiers"@) {
        Some(TomlValue::Array(a)) => tv_strings(a@),
        _ => Seq::empty(),
    }
}

/// A raw style as (fg, bg, bold, italic, underline).
pub open spec fn raw_style_view(st: RawStyle) -> (Option<Seq<char>>, Option<Seq<char>>, bool, bool, bool) {
    (
        match st.fg {
            Some(c) => Some(c@),
            None => None,
        },
        match st.bg {
            Some(c) => Some(c@),
            None => None,
        },
        st.bold,
        st.italic,
        st.underline,
    )
}

/// The style a theme-file value gives: a string is a foreground colour;
/// a table gives `fg`, `bg` and `modifiers` (`bold`, `italic`,
/// `underline` or `underlined`); other values give none.
pub open spec fn spec_raw_style(v: TomlValue) -> Option<(Option<Seq<char>>, Option<Seq<char>>, bool, bool, bool)> {
    match v {
        TomlValue::Str(fg) => Some((Some(fg@), None, false, false, false)),
        TomlValue::Table(t) => {
            let m = modifiers_of(t@);
            Some(
                (
                    tv_get_str(t@, "fg"@),
                    tv_get_str(t@, "bg"@),
                    m.contains("bold"@),
                    m.contains("italic"@),
                    m.contains("underline"@) || m.contains("underlined"@),
                ),
            )
        },
        _ => None,
    }
}

/// The string entries of a palette table, in order.
pub open spec fn palette_entries(t: Seq<(String, TomlValue)>) -> Seq<(Seq<char>, Seq<char>)>
    decreases t.len(),
{
    if t.len() == 0 {
        Seq::empty()
    } else {
        match t.last().1 {
            TomlValue::Str(c) => palette_entries(t.drop_last()).push((t.last().0@, c@)),
            _ => palette_entries(t.drop_last()),
        }
    }
}

/// A raw theme as (inherits, palette, styles).
pub open spec fn raw_theme_view(r: RawTheme) -> (
    Option<Seq<char>>,
    Seq<(Seq<char>, Seq<char>)>,
    Seq<(Seq<char>, (Option<Seq<char>>, Option<Seq<char>>, bool, bool, bool))>,
) {
    (
        match r.inherits {
            Some(c) => Some(c@),
            None => None,
        },
        r.palette@.map_values(|e: (String, String)| (e.0@, e.1@)),
        r.styles@.map_values(|e: (String, RawStyle)| (e.0@, raw_style_view(e.1))),
    )
}

/// A theme file's top-level entries read in order: `inherits` names the
/// parent, `palette` adds its string entries, every other key whose
/// value makes a style adds that style.
pub open spec fn spec_parse_theme(es: Seq<(String, TomlValue)>) -> (
    Option<Seq<char>>,
    Seq<(Seq<char>, Seq<char>)>,
    Seq<(Seq<char>, (Option<Seq<char>>, Option<Seq<char>>, bool, bool, bool))>,
)
    decreases es.len(),
{
    if es.len() == 0 {
        (None, Seq::empty(), Seq::empty())
    } else {
        let prev = spec_parse_theme(es.drop_last());
        let (k, v) = es.last();
        if k@ == "inherits"@ {
            (tv_str(v), prev.1, prev.2)
        } else if k@ == "palette"@ {
            match v {
                TomlValue::Table(t) => (prev.0, prev.1 + palette_entries(t@), prev.2),
                _ => prev,
            }
        } else {
            match spec_raw_style(v) {
                Some(st) => (prev.0, prev.1, prev.2.push((k@, st))),
                None => prev,
            }
        }
    }
}

fn copy_string(s: &String) -> (r: String)
    ensures
        r@ == s@,
{
    from_chars(&to_chars(s.as_str()))
}

fn tv_get_v<'a>(t: &'a Vec<(String, TomlValue)>, k: &str) -> (r: Option<&'a TomlValue>)
    ensures
        match r {
            Some(x) => tv_get(t@, k@) == Some(*x),
            None => tv_get(t@, k@) is None,
        },
{
    let kv = to_chars(k);
    let mut i: usize = 0;
    assert(t@.skip(0) =~= t@);
    while i < t.len()
        invariant
            i <= t.len(),
            kv@ == k@,
            tv_get(t@, k@) == tv_get(t@.skip(i as int), k@),
        decreases t.len() - i,
    {
        assert(t@.skip(i as int)[0] == t@[i as int]);
        if eq_v(&to_chars(t[i].0.as_str()), &kv) {
            return Some(&t[i].1);
        }
        assert(t@.skip(i as int).drop_first() =~= t@.skip(i + 1));
        i += 1;
    }
    assert(t@.skip(i as int) =~= Seq::<(String, TomlValue)>::empty());
    None
}

fn tv_get_str_v(t: &Vec<(String, TomlValue)>, k: &str) -> (r: Option<String>)
    ensures
        match r {
            Some(x) => tv_get_str(t@, k@) == Some(x@),
            None => tv_get_str(t@, k@) is None,
        },
{
    match tv_get_v(t, k) {
        Some(TomlValue::Str(s)) => Some(copy_string(s)),
        _ => None,
    }
}

proof fn lemma_contains_push(s: Seq<Seq<char>>, x: Seq<char>, y: Seq<char>)
    ensures
        s.push(x).contains(y) == (s.contains(y) || x == y),
{
    if s.contains(y) {
        let k = choose|k: int| 0 <= k < s.len() && s[k] == y;
        assert(s.push(x)[k] == y);
    }
    if x == y {
        assert(s.push(x)[s.len() as int] == y);
    }
    if s.push(x).contains(y) {
        let k = choose|k: int| 0 <= k < s.push(x).len() && s.push(x)[k] == y;
        if k < s.len() {
            assert(s[k] == y);
        }
    }
}

/// (bold, italic, underline) from a modifiers array.
fn modifier_flags(a: &Vec<TomlValue>) -> (r: (bool, bool, bool))
    ensures
        r == (
            tv_strings(a@).contains("bold"@),
            tv_strings(a@).contains("italic"@),
            tv_strings(a@).contains("underline"@) || tv_strings(a@).contains("underlined"@),
        ),
{
    let mut bold = false;
    let mut italic = false;
    let mut underline = false;
    let mut i: usize = 0;
    assert(a@.take(0) =~= Seq::<TomlValue>::empty());
    while i < a.len()
        invariant
            i <= a.len(),
            bold == tv_strings(a@.take(i as int)).contains("bold"@),
            italic == tv_strings(a@.take(i as int)).contains("italic"@),
            underline == (tv_strings(a@.take(i as int)).contains("underline"@) || tv_strings(
                a@.take(i as int),
            ).contains("underlined"@)),
        decreases a.len() - i,
    {
        let ghost before = tv_strings(a@.take(i as int));
        assert(a@.take(i + 1).drop_last() =~= a@.take(i as int));
        assert(a@.take(i + 1).last() == a@[i as int]);
        match &a[i] {
            TomlValue::Str(s) => {
                let w = to_chars(s.as_str());
                proof {
                    lemma_contains_push(before, s@, "bold"@);
                    lemma_contains_push(before, s@, "italic"@);
                    lemma_contains_push(before, s@, "underline"@);
                    lemma_contains_push(before, s@, "underlined"@);
                }
                if eq_str(&w, "bold") {
                    bold = true;
                }
                if eq_str(&w, "italic") {
                    italic = true;
                }
                if eq_str(&w, "underline") || eq_str(&w, "underlined") {
                    underline = true;
                }
            },
            _ => {},
        }
        i += 1;
    }
    assert(a@.take(a.len() as int) =~= a@);
    (bold, italic, underline)
}

fn raw_style_of(v: &TomlValue) -> (r: Option<RawStyle>)
    ensures
        match r {
            Some(st) => spec_raw_style(*v) == Some(raw_style_view(st)),
            None => spec_raw_style(*v) is None,
        },
{
    match v {
        TomlValue::Str(fg) => Some(
            RawStyle { fg: Some(copy_string(fg)), bg: None, bold: false, italic: false, underline: false },
        ),
        TomlValue::Table(t) => {
            let (bold, italic, underline) = match tv_get_v(t, "modifiers") {
                Some(TomlValue::Array(a)) => modifier_flags(a),
                _ => {
                    proof {
                        reveal_strlit("modifiers");
                    }
                    assert(modifiers_of(t@) =~= Seq::<Seq<char>>::empty());
                    (false, false, false)
                },
            };
            Some(RawStyle { fg: tv_get_str_v(t, "fg"), bg: tv_get_str_v(t, "bg"), bold, italic, underline })
        },
        _ => None,
    }
}

fn palette_entries_v(t: &Vec<(String, TomlValue)>, out: &mut Vec<(String, String)>)
    ensures
        final(out)@.map_values(|e: (String, String)| (e.0@, e.1@)) == old(out)@.map_values(
            |e: (String, String)| (e.0@, e.1@),
        ) + palette_entries(t@),
{
    let ghost start = out@.map_values(|e: (String, String)| (e.0@, e.1@));
    let mut i: usize = 0;
    assert(t@.take(0) =~= Seq::<(String, TomlValue)>::empty());
    assert(start + palette_entries(t@.take(0)) =~= start);
    while i < t.len()
        invariant
            i <= t.len(),
            out@.map_values(|e: (String, String)| (e.0@, e.1@)) == start + palette_entries(t@.take(i as int)),
        decreases t.len() - i,
    {
        assert(t@.take(i + 1).drop_last() =~= t@.take(i as int));
        assert(t@.take(i + 1).last() == t@[i as int]);
        match &t[i].1 {
            TomlValue::Str(c) => {
                let ghost before = out@;
                out.push((copy_string(&t[i].0), copy_string(c)));
                assert(out@.map_values(|e: (String, String)| (e.0@, e.1@)) =~= before.map_values(
                    |e: (String, String)| (e.0@, e.1@),
                ).push((t@[i as int].0@, c@)));
            },
            _ => {},
        }
        i += 1;
    }
    assert(t@.take(t.len() as int) =~= t@);
}

impl RawTheme {
    /// A theme file's text as a raw theme: parsed as TOML, then read as
    /// a table.
    pub fn from_source(src: &str) -> (r: Result<RawTheme, ThemeError>)
        ensures
            match spec_toml_doc(src@) {
                None => r matches Err(ThemeError::Parse(_)),
                Some(TomlValue::Table(es)) => r is Ok && raw_theme_view(r->Ok_0) == spec_parse_theme(es@),
                Some(_) => r matches Err(ThemeError::Parse(m)) && m@ == "theme is not a TOML table"@,
            },
    {
        match toml_doc(src) {
            Ok(v) => RawTheme::parse(&v),
            Err(m) => Err(ThemeError::Parse(m)),
        }
    }

    /// A theme file's parsed TOML value as a raw theme.
    pub fn parse(value: &TomlValue) -> (r: Result<RawTheme, ThemeError>)
        ensures
            match value {
                TomlValue::Table(es) => r is Ok && raw_theme_view(r->Ok_0) == spec_parse_theme(es@),
                _ => r matches Err(ThemeError::Parse(m)) && m@ == "theme is not a TOML table"@,
            },
    {
        let es = match value {
            TomlValue::Table(es) => es,
            _ => {
                return Err(ThemeError::Parse(String::from_str("theme is not a TOML table")));
            },
        };
        let mut raw = RawTheme { inherits: None, palette: Vec::new(), styles: Vec::new() };
        let mut i: usize = 0;
        assert(es@.take(0) =~= Seq::<(String, TomlValue)>::empty());
        assert(raw_theme_view(raw) =~~= spec_parse_theme(es@.take(0)));
        while i < es.len()
            invariant
                i <= es.len(),
                raw_theme_view(raw) == spec_parse_theme(es@.take(i as int)),
            decreases es.len() - i,
        {
            assert(es@.take(i + 1).drop_last() =~= es@.take(i as int));
            assert(es@.take(i + 1).last() == es@[i as int]);
            let key = to_chars(es[i].0.as_str());
            proof {
                reveal_strlit("inherits");
                reveal_strlit("palette");
            }
            if eq_str(&key, "inherits") {
                raw.inherits = match &es[i].1 {
                    TomlValue::Str(s) => Some(copy_string(s)),
                    _ => None,
                };
            } else if eq_str(&key, "palette") {
                match &es[i].1 {
                    TomlValue::Table(t) => {
                        palette_entries_v(t, &mut raw.palette);
                    },
                    _ => {},
                }
            } else {
                match raw_style_of(&es[i].1) {
                    Some(st) => {
                        let ghost before = raw.styles@;
                        raw.styles.push((copy_string(&es[i].0), st));
                        assert(raw.styles@.map_values(|e: (String, RawStyle)| (e.0@, raw_style_view(e.1)))
                            =~= before.map_values(|e: (String, RawStyle)| (e.0@, raw_style_view(e.1))).push(
                            (es@[i as int].0@, spec_raw_style(es@[i as int].1)->0),
                        ));
                    },
                    None => {},
                }
            }
            i += 1;
        }
        assert(es@.take(es.len() as int) =~= es@);
        Ok(raw)
    }
}

/// The palette entry for `name` (the last one wins).
pub open spec fn palette_lookup(pal: Seq<(Seq<char>, Seq<char>)>, name: Seq<char>) -> Option<Seq<char>>
    decreases pal.len(),
{
    if pal.len() == 0 {
        None
    } else if pal.last().0 == name {
        Some(pal.last().1)
    } else {
        palette_lookup(pal.drop_last(), name)
    }
}

/// A colour resolved: `#` literals as they are, names through the
/// palette (a miss gives no colour).
pub open spec fn color_of(c: Option<Seq<char>>, pal: Seq<(Seq<char>, Seq<char>)>) -> Option<Seq<char>> {
    match c {
        None => None,
        Some(raw) => if crate::text::starts_with(raw, "#"@) {
            Some(raw)
        } else {
            palette_lookup(pal, raw)
        },
    }
}

/// A raw style with its colours resolved.
pub open spec fn resolved_style(st: RawStyle, pal: Seq<(Seq<char>, Seq<char>)>) -> StyleView {
    (color_of(st.fg.deep_view(), pal), color_of(st.bg.deep_view(), pal), st.bold, st.italic, st.underline)
}

fn palette_get(pal: &Vec<(String, String)>, name: &str) -> (r: Option<String>)
    ensures
        r.deep_view() == palette_lookup(pal.deep_view(), name@),
{
    let n = to_chars(name);
    let mut k: usize = pal.len();
    let ghost pd = pal.deep_view();
    assert(pd.take(ix(k)) =~= pd);
    while k > 0
        invariant
            k <= pal.len(),
            pd == pal.deep_view(),
            n@ == name@,
            palette_lookup(pd, name@) == palette_lookup(pd.take(ix(k)), name@),
        decreases k,
    {
        let e = &pal[k - 1];
        assert(pd.take(ix(k)).drop_last() =~= pd.take(ix(k) - 1));
        assert(pd.take(ix(k)).last() == pd[ix(k) - 1]);
        if eq_v(&to_chars(e.0.as_str()), &n) {
            return Some(e.1.clone());
        }
        k -= 1;
    }
    None
}

fn resolve_color(c: &Option<String>, pal: &Vec<(String, String)>) -> (r: Option<String>)
    ensures
        r.deep_view() == color_of(c.deep_view(), pal.deep_view()),
{
    match c {
        None => None,
        Some(raw) => {
            if starts_with_str(&to_chars(raw.as_str()), "#") {
                Some(raw.clone())
            } else {
                palette_get(pal, raw.as_str())
            }
        },
    }
}

impl RawStyle {
    /// Resolve colours through the palette; each colour resolves on its
    /// own (a palette miss drops that colour, the style survives).
    pub fn resolve_colors(&self, palette: &Vec<(String, String)>) -> (r: Option<ThemeStyle>)
        ensures
            r is Some,
            r->0@ == resolved_style(*self, palette.deep_view()),
    {
        Some(
            ThemeStyle {
                fg: resolve_color(&self.fg, palette),
                bg: resolve_color(&self.bg, palette),
                bold: self.bold,
                italic: self.italic,
                underline: self.underline,
            },
        )
    }
}

/// The palettes of a chain, root first (later entries win on lookup).
pub open spec fn merged_palette(chain: Seq<RawTheme>) -> Seq<(Seq<char>, Seq<char>)>
    decreases chain.len(),
{
    if chain.len() == 0 {
        Seq::empty()
    } else {
        merged_palette(chain.drop_last()) + chain.last().palette.deep_view()
    }
}

/// `m` with the styles of one theme file set, resolved against `pal`.
pub open spec fn with_styles(
    m: Map<Seq<char>, StyleView>,
    styles: Seq<(String, RawStyle)>,
    pal: Seq<(Seq<char>, Seq<char>)>,
) -> Map<Seq<char>, StyleView>
    decreases styles.len(),
{
    if styles.len() == 0 {
        m
    } else {
        with_styles(m, styles.drop_last(), pal).insert(styles.last().0@, resolved_style(styles.last().1, pal))
    }
}

/// Every style of the chain, root first, resolved against `pal`.
pub open spec fn chain_styles(chain: Seq<RawTheme>, pal: Seq<(Seq<char>, Seq<char>)>) -> Map<Seq<char>, StyleView>
    decreases chain.len(),
{
    if chain.len() == 0 {
        Map::empty()
    } else {
        with_styles(chain_styles(chain.drop_last(), pal), chain.last().styles@, pal)
    }
}

/// The theme of an inheritance chain (root first, the named theme
/// last): palettes merge down the chain, leaf wins; then every style of
/// every file resolves against the merged palette, later files winning.
pub fn load_chain(chain: &Vec<RawTheme>) -> (r: SyntaxTheme)
    ensures
        r.wf(),
        r@ == chain_styles(chain@, merged_palette(chain@)),
{
    let mut palette: Vec<(String, String)> = Vec::new();
    let mut i: usize = 0;
    assert(chain@.take(0) =~= Seq::<RawTheme>::empty());
    assert(palette.deep_view() =~= Seq::<(Seq<char>, Seq<char>)>::empty());
    while i < chain.len()
        invariant
            i <= chain.len(),
            palette.deep_view() == merged_palette(chain@.take(ix(i))),
        decreases chain.len() - i,
    {
        let raw = &chain[i];
        let mut k: usize = 0;
        let ghost before = palette.deep_view();
        while k < raw.palette.len()
            invariant
                k <= raw.palette.len(),
                palette.deep_view() == before + raw.palette.deep_view().take(ix(k)),
            decreases raw.palette.len() - k,
        {
            let e = &raw.palette[k];
            let ghost pv = palette.deep_view();
            palette.push((e.0.clone(), e.1.clone()));
            assert(palette.deep_view() =~= pv.push(e.deep_view()));
            assert(raw.palette.deep_view().take(ix(k) + 1) =~= raw.palette.deep_view().take(ix(k)).push(
                e.deep_view(),
            ));
            k += 1;
        }
        assert(raw.palette.deep_view().take(ix(k)) =~= raw.palette.deep_view());
        assert(chain@.take(ix(i) + 1).drop_last() =~= chain@.take(ix(i)));
        i += 1;
    }
    assert(chain@.take(ix(i)) =~= chain@);
    let ghost pal = palette.deep_view();
    let mut theme = SyntaxTheme::new();
    let mut i: usize = 0;
    while i < chain.len()
        invariant
            i <= chain.len(),
            pal == palette.deep_view(),
            theme.wf(),
            theme@ == chain_styles(chain@.take(ix(i)), pal),
        decreases chain.len() - i,
    {
        let raw = &chain[i];
        let mut k: usize = 0;
        let ghost before = theme@;
        while k < raw.styles.len()
            invariant
                k <= raw.styles.len(),
                pal == palette.deep_view(),
                theme.wf(),
                theme@ == with_styles(before, raw.styles@.take(ix(k)), pal),
            decreases raw.styles.len() - k,
        {
            let (scope, style) = &raw.styles[k];
            let resolved = style.resolve_colors(&palette);
            match resolved {
                Some(st) => {
                    theme.insert(scope.clone(), st);
                },
                None => {},
            }
            assert(raw.styles@.take(ix(k) + 1).drop_last() =~= raw.styles@.take(ix(k)));
            k += 1;
        }
        assert(raw.styles@.take(ix(k)) =~= raw.styles@);
        assert(chain@.take(ix(i) + 1).drop_last() =~= chain@.take(ix(i)));
        i += 1;
    }
    assert(chain@.take(ix(i)) =~= chain@);
    theme
}


// ── laws ───────────────────────────────────────────────────────────────

/// A scope the theme sets resolves to exactly its style.
pub proof fn law_resolve_after_insert(m: Map<Seq<char>, StyleView>, scope: Seq<char>, st: StyleView)
    ensures
        resolve_scope(m.insert(scope, st), scope) == Some(st),
{
}

/// A dotted capture the theme leaves unset falls back to its parent
/// scope: `parent.child` (child without dots) resolves as `parent` does.
pub proof fn law_dotted_scope_falls_back(m: Map<Seq<char>, StyleView>, parent: Seq<char>, child: Seq<char>)
    requires
        !m.dom().contains(parent + "."@ + child),
        forall|i: int| 0 <= i < child.len() ==> #[trigger] child[i] != '.',
    ensures
        resolve_scope(m, parent + "."@ + child) == resolve_scope(m, parent),
{
    reveal_strlit(".");
    let full = parent + "."@ + child;
    let k = parent.len() as int;
    assert(full[k] == '.');
    assert forall|j: int| k < j < full.len() implies #[trigger] full[j] != '.' by {
        assert(full[j] == child[j - k - 1]);
    }
    crate::markdown::preprocess::lemma_last_index_of(full, '.');
    if last_index_of(full, '.') != k {
        assert(full[last_index_of(full, '.')] == '.');
    }
    assert(full.take(k) =~= parent);
}

// ── the inherits chain ─────────────────────────────────────────────────

/// A theme file of an `inherits` chain as it was read: the name it was
/// asked by and its theme (`None`: it could not be read or parsed).
pub struct ThemeFile {
    pub key: String,
    pub theme: Option<RawTheme>,
}

/// The next step of loading a chain.
pub enum ChainStep {
    /// Read and parse the theme file named `key` next.
    Read(String),
    /// The chain as positions in the files read, root first.
    Done(Vec<usize>),
}

/// Position of the first file read under `key`, or -1.
pub open spec fn file_index(files: Seq<ThemeFile>, key: Seq<char>) -> int
    decreases files.len(),
{
    if files.len() == 0 {
        -1
    } else if file_index(files.drop_last(), key) >= 0 {
        file_index(files.drop_last(), key)
    } else if files.last().key@ == key {
        files.len() - 1
    } else {
        -1
    }
}

/// Follows the chain from `key`, `visited` holding the positions taken
/// so far (the starting theme first): a name not read yet is asked for;
/// a name already in the chain, an unreadable file, or a theme without a
/// `.toml` parent ends it. `Err(key)`: read `key`; `Ok(visited)`: done.
pub open spec fn walk_chain(files: Seq<ThemeFile>, key: Seq<char>, visited: Seq<int>) -> Result<Seq<int>, Seq<char>>
    decreases files.len() + 1 - visited.len(),
{
    let i = file_index(files, key);
    if visited.len() > files.len() {
        Ok(visited)
    } else if i < 0 {
        Err(key)
    } else if visited.contains(i) {
        Ok(visited)
    } else {
        match files[i].theme {
            None => Ok(visited),
            Some(t) => match t.inherits {
                Some(p) => if ends_with(p@, ".toml"@) {
                    walk_chain(files, p@, visited.push(i))
                } else {
                    Ok(visited.push(i))
                },
                None => Ok(visited.push(i)),
            },
        }
    }
}

/// The chain of `start` over the files read so far: the next file to
/// read, or the chain's positions root first.
pub open spec fn spec_theme_chain(start: Seq<char>, files: Seq<ThemeFile>) -> Result<Seq<int>, Seq<char>> {
    match walk_chain(files, start, Seq::empty()) {
        Ok(v) => Ok(v.reverse()),
        Err(k) => Err(k),
    }
}

pub open spec fn chain_step_view(r: ChainStep) -> Result<Seq<int>, Seq<char>> {
    match r {
        ChainStep::Read(k) => Err(k@),
        ChainStep::Done(v) => Ok(v@.map_values(|i: usize| i as int)),
    }
}

proof fn lemma_walk_distinct(files: Seq<ThemeFile>, key: Seq<char>, visited: Seq<int>)
    requires
        visited.no_duplicates(),
    ensures
        walk_chain(files, key, visited) matches Ok(v) ==> v.no_duplicates(),
    decreases files.len() + 1 - visited.len(),
{
    let i = file_index(files, key);
    if visited.len() <= files.len() && i >= 0 && !visited.contains(i) {
        assert(visited.push(i).no_duplicates()) by {
            assert forall|a: int, b: int| 0 <= a < b < visited.push(i).len() implies visited.push(i)[a]
                != visited.push(i)[b] by {
                if b == visited.len() {
                    assert(visited.push(i)[a] == visited[a]);
                }
            }
        }
        match files[i].theme {
            Some(t) => match t.inherits {
                Some(p) => if ends_with(p@, ".toml"@) {
                    lemma_walk_distinct(files, p@, visited.push(i));
                },
                None => {},
            },
            None => {},
        }
    }
}

/// A chain never takes a file twice: an `inherits` cycle ends the walk
/// where it would come back.
pub proof fn law_theme_chain_has_no_repeats(start: Seq<char>, files: Seq<ThemeFile>)
    ensures
        spec_theme_chain(start, files) matches Ok(v) ==> v.no_duplicates(),
{
    lemma_walk_distinct(files, start, Seq::empty());
    match walk_chain(files, start, Seq::empty()) {
        Ok(v) => {
            assert forall|a: int, b: int| 0 <= a < b < v.reverse().len() implies v.reverse()[a] != v.reverse()[b] by {
                assert(v.reverse()[a] == v[v.len() - 1 - a]);
                assert(v.reverse()[b] == v[v.len() - 1 - b]);
            }
        },
        Err(_) => {},
    }
}

fn file_index_v(files: &Vec<ThemeFile>, key: &Vec<char>) -> (r: Option<usize>)
    ensures
        match r {
            Some(i) => i < files.len() && i == file_index(files@, key@),
            None => file_index(files@, key@) == -1,
        },
{
    let mut found: Option<usize> = None;
    let mut k: usize = 0;
    while k < files.len()
        invariant
            k <= files.len(),
            match found {
                Some(j) => j < k && j == file_index(files@.take(k as int), key@),
                None => file_index(files@.take(k as int), key@) == -1,
            },
        decreases files.len() - k,
    {
        proof {
            assert(files@.take(k as int + 1).drop_last() =~= files@.take(k as int));
        }
        if found.is_none() && eq_v(&to_chars(files[k].key.as_str()), key) {
            found = Some(k);
        }
        k += 1;
    }
    assert(files@.take(k as int) =~= files@);
    found
}

/// Where the `inherits` chain of `start` stands, given the files read so
/// far (see `spec_theme_chain`).
pub fn theme_chain(start: &str, files: &Vec<ThemeFile>) -> (r: ChainStep)
    ensures
        chain_step_view(r) == spec_theme_chain(start@, files@),
{
    let mut key = to_chars(start);
    let mut visited: Vec<usize> = Vec::new();
    let ghost goal = walk_chain(files@, start@, Seq::empty());
    assert(visited@.map_values(|i: usize| i as int) =~= Seq::<int>::empty());
    loop
        invariant
            goal == walk_chain(files@, start@, Seq::empty()),
            walk_chain(files@, key@, visited@.map_values(|i: usize| i as int)) == goal,
            visited.len() <= files.len() + 1,
            forall|j: int| 0 <= j < visited.len() ==> #[trigger] visited@[j] < files.len(),
        decreases files.len() + 1 - visited.len(),
    {
        let ghost vis = visited@.map_values(|i: usize| i as int);
        if visited.len() > files.len() {
            assert(walk_chain(files@, key@, vis) == Ok::<Seq<int>, Seq<char>>(vis));
            return ChainStep::Done(reversed(&visited));
        }
        let i = match file_index_v(files, &key) {
            Some(i) => i,
            None => {
                assert(walk_chain(files@, key@, vis) == Err::<Seq<int>, Seq<char>>(key@));
                return ChainStep::Read(from_chars(&key));
            },
        };
        let mut seen = false;
        let mut j: usize = 0;
        while j < visited.len()
            invariant
                j <= visited.len(),
                seen == (exists|m: int| 0 <= m < j && visited@[m] == i),
            decreases visited.len() - j,
        {
            if visited[j] == i {
                seen = true;
            }
            j += 1;
        }
        proof {
            if seen {
                let m = choose|m: int| 0 <= m < j && visited@[m] == i;
                assert(vis[m] == i as int);
            } else {
                assert forall|m: int| 0 <= m < vis.len() implies vis[m] != i as int by {
                    assert(visited@[m] != i);
                }
            }
        }
        if seen {
            assert(walk_chain(files@, key@, vis) == Ok::<Seq<int>, Seq<char>>(vis));
            return ChainStep::Done(reversed(&visited));
        }
        match &files[i].theme {
            None => {
                assert(walk_chain(files@, key@, vis) == Ok::<Seq<int>, Seq<char>>(vis));
                return ChainStep::Done(reversed(&visited));
            },
            Some(t) => {
                visited.push(i);
                proof {
                    assert(visited@.map_values(|x: usize| x as int) =~= vis.push(i as int));
                }
                match &t.inherits {
                    Some(p) => {
                        let pv = to_chars(p.as_str());
                        if ends_with_str(&pv, ".toml") {
                            assert(walk_chain(files@, key@, vis) == walk_chain(files@, pv@, vis.push(i as int)));
                            key = pv;
                        } else {
                            assert(walk_chain(files@, key@, vis) == Ok::<Seq<int>, Seq<char>>(vis.push(i as int)));
                            return ChainStep::Done(reversed(&visited));
                        }
                    },
                    None => {
                        assert(walk_chain(files@, key@, vis) == Ok::<Seq<int>, Seq<char>>(vis.push(i as int)));
                        return ChainStep::Done(reversed(&visited));
                    },
                }
            },
        }
    }
}

fn reversed(v: &Vec<usize>) -> (r: Vec<usize>)
    ensures
        r@.map_values(|i: usize| i as int) == v@.map_values(|i: usize| i as int).reverse(),
{
    let mut r: Vec<usize> = Vec::new();
    let mut k: usize = v.len();
    while k > 0
        invariant
            k <= v.len(),
            r.len() == v.len() - k,
            forall|m: int| 0 <= m < r.len() ==> #[trigger] r@[m] == v@[v.len() - 1 - m],
        decreases k,
    {
        k -= 1;
        r.push(v[k]);
    }
    assert(r@.map_values(|i: usize| i as int) =~= v@.map_values(|i: usize| i as int).reverse());
    r
}

} // verus!
