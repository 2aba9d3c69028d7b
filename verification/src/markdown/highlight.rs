//! The `gdcode` code-block renderer's text logic: fence metadata,
//! highlighted-line specs, per-line classes, the ANSI (SGR) renderer and
//! the dual-theme `syntax.css` generator. Tokenizing source code into
//! captured segments is the highlighter's job; this module renders the
//! segments it hands over.

use vstd::prelude::*;

use crate::markdown::preprocess::{escape_seq, push_escaped};
use crate::markdown::syntax_theme::{resolve_scope, StyleView, SyntaxTheme};
use crate::sidebar::{join_with, split_on, lemma_pieces_step, pieces_from};
use crate::markdown::preprocess::{find_seq_from, find_seq_v, lemma_find_seq_from};
use crate::text::{
    eq_str, from_chars, is_ws, is_ws_char, ix, push_all, push_str, slice_of, starts_with,
    starts_with_str, to_chars, trim, trim_v, split_lines, split_lines_v,
};

verus! {

broadcast use vstd::string::group_string_axioms;

// ── ANSI escape sequences ──────────────────────────────────────────────

/// The foreground class of SGR colour `k` (0–7 normal, 8–15 bright,
/// 16 the terminal default).
pub open spec fn fg_name(k: u8) -> Seq<char> {
    if k == 0 {
        "ansi-fg-black"@
    } else if k == 1 {
        "ansi-fg-red"@
    } else if k == 2 {
        "ansi-fg-green"@
    } else if k == 3 {
        "ansi-fg-yellow"@
    } else if k == 4 {
        "ansi-fg-blue"@
    } else if k == 5 {
        "ansi-fg-magenta"@
    } else if k == 6 {
        "ansi-fg-cyan"@
    } else if k == 7 {
        "ansi-fg-white"@
    } else if k == 8 {
        "ansi-fg-bright-black"@
    } else if k == 9 {
        "ansi-fg-bright-red"@
    } else if k == 10 {
        "ansi-fg-bright-green"@
    } else if k == 11 {
        "ansi-fg-bright-yellow"@
    } else if k == 12 {
        "ansi-fg-bright-blue"@
    } else if k == 13 {
        "ansi-fg-bright-magenta"@
    } else if k == 14 {
        "ansi-fg-bright-cyan"@
    } else if k == 15 {
        "ansi-fg-bright-white"@
    } else {
        "ansi-fg-default"@
    }
}

fn fg_class(k: u8) -> (r: String)
    ensures
        r@ == fg_name(k),
{
    let s = if k == 0 {
        "ansi-fg-black"
    } else if k == 1 {
        "ansi-fg-red"
    } else if k == 2 {
        "ansi-fg-green"
    } else if k == 3 {
        "ansi-fg-yellow"
    } else if k == 4 {
        "ansi-fg-blue"
    } else if k == 5 {
        "ansi-fg-magenta"
    } else if k == 6 {
        "ansi-fg-cyan"
    } else if k == 7 {
        "ansi-fg-white"
    } else if k == 8 {
        "ansi-fg-bright-black"
    } else if k == 9 {
        "ansi-fg-bright-red"
    } else if k == 10 {
        "ansi-fg-bright-green"
    } else if k == 11 {
        "ansi-fg-bright-yellow"
    } else if k == 12 {
        "ansi-fg-bright-blue"
    } else if k == 13 {
        "ansi-fg-bright-magenta"
    } else if k == 14 {
        "ansi-fg-bright-cyan"
    } else if k == 15 {
        "ansi-fg-bright-white"
    } else {
        "ansi-fg-default"
    };
    String::from_str(s)
}

/// The SGR text state carried across an ANSI block: the foreground
/// colour (see `fg_name`) and the four attributes styled.
#[derive(Debug, Clone, Copy, PartialEq, Eq)]
pub struct SgrState {
    pub fg: Option<u8>,
    pub bold: bool,
    pub dim: bool,
    pub italic: bool,
    pub underline: bool,
}

impl Default for SgrState {
    fn default() -> (r: SgrState)
        ensures
            r == plain_state(),
    {
        SgrState { fg: None, bold: false, dim: false, italic: false, underline: false }
    }
}

/// No colour, no attribute.
pub open spec fn plain_state() -> SgrState {
    SgrState { fg: None, bold: false, dim: false, italic: false, underline: false }
}

/// The class names of a state, in order.
pub open spec fn class_parts(st: SgrState) -> Seq<Seq<char>> {
    let a = if st.bold {
        seq!["ansi-bold"@]
    } else {
        Seq::empty()
    };
    let b = if st.dim {
        a.push("ansi-dim"@)
    } else {
        a
    };
    let c = if st.italic {
        b.push("ansi-italic"@)
    } else {
        b
    };
    let d = if st.underline {
        c.push("ansi-underline"@)
    } else {
        c
    };
    match st.fg {
        Some(k) => d.push(fg_name(k)),
        None => d,
    }
}

/// The class list of a state, space-separated; empty when plain.
pub open spec fn classes_of(st: SgrState) -> Seq<char> {
    join_with(class_parts(st), " "@)
}

/// The state after one SGR code.
pub open spec fn apply_code(st: SgrState, n: int) -> SgrState {
    if n == 0 {
        plain_state()
    } else if n == 1 {
        SgrState { bold: true, ..st }
    } else if n == 2 {
        SgrState { dim: true, ..st }
    } else if n == 3 {
        SgrState { italic: true, ..st }
    } else if n == 4 {
        SgrState { underline: true, ..st }
    } else if n == 21 || n == 22 {
        SgrState { bold: false, dim: false, ..st }
    } else if n == 23 {
        SgrState { italic: false, ..st }
    } else if n == 24 {
        SgrState { underline: false, ..st }
    } else if 30 <= n <= 37 {
        SgrState { fg: Some((n - 30) as u8), ..st }
    } else if n == 39 {
        SgrState { fg: Some(16), ..st }
    } else if 90 <= n <= 97 {
        SgrState { fg: Some((n - 90 + 8) as u8), ..st }
    } else {
        st
    }
}

/// The state after the codes from `i` on. An extended colour (38, 48,
/// 58) consumes its arguments: `5;N` two more, `2;R;G;B` four more, a
/// malformed form none.
pub open spec fn apply_codes(st: SgrState, nums: Seq<int>, i: int) -> SgrState
    decreases nums.len() - i,
{
    if i < 0 || i >= nums.len() {
        st
    } else {
        let n = nums[i];
        if n == 38 || n == 48 || n == 58 {
            let step = if i + 1 < nums.len() && nums[i + 1] == 5 {
                2int
            } else if i + 1 < nums.len() && nums[i + 1] == 2 {
                4int
            } else {
                0int
            };
            if i + step + 1 >= nums.len() {
                st
            } else {
                apply_codes(st, nums, i + step + 1)
            }
        } else {
            apply_codes(apply_code(st, n), nums, i + 1)
        }
    }
}

pub open spec fn is_digit(c: char) -> bool {
    '0' <= c && c <= '9'
}

/// The decimal value of a digit string.
pub open spec fn decimal(s: Seq<char>) -> nat
    decreases s.len(),
{
    if s.len() == 0 {
        0
    } else {
        decimal(s.drop_last()) * 10 + ((s.last() as u32) - ('0' as u32)) as nat
    }
}

pub open spec fn all_digits(s: Seq<char>) -> bool {
    forall|i: int| 0 <= i < s.len() ==> is_digit(#[trigger] s[i])
}

/// A digit string that fits 16 bits as its number; anything else as
/// 65535.
pub open spec fn digits_value(p: Seq<char>) -> int {
    if all_digits(p) && decimal(p) <= 65535 {
        decimal(p) as int
    } else {
        65535
    }
}

/// One SGR parameter as a code: empty is 0 (ECMA-48); a number that
/// fits 16 bits, with or without one leading `+`, is itself; anything
/// else is 65535, a code no rule matches.
pub open spec fn param_value(p: Seq<char>) -> int {
    if p.len() == 0 {
        0
    } else if p[0] == '+' && p.len() > 1 {
        digits_value(p.skip(1))
    } else {
        digits_value(p)
    }
}

/// The codes of a `;`-separated parameter string.
pub open spec fn param_codes(params: Seq<char>) -> Seq<int> {
    split_on(params, ';').map_values(|p: Seq<char>| param_value(p))
}

/// The first index at or after `k` whose character is outside
/// `lo..=hi`.
pub open spec fn scan_range(text: Seq<char>, k: int, lo: u32, hi: u32) -> int
    decreases text.len() - k,
{
    if k < 0 || k >= text.len() {
        k
    } else if lo <= (text[k] as u32) <= hi {
        scan_range(text, k + 1, lo, hi)
    } else {
        k
    }
}

/// Splitting a line into styled segments, from position `i` with state
/// `st`, pending plain text `plain` and segments `out` so far: an SGR
/// sequence (`ESC [ params m`) flushes the pending text under the old
/// state and applies its codes; another complete control sequence is
/// skipped; an unterminated one is dropped; other characters accumulate.
pub open spec fn sgr_run(
    text: Seq<char>,
    i: int,
    st: SgrState,
    plain: Seq<char>,
    out: Seq<(Seq<char>, Seq<char>)>,
) -> (SgrState, Seq<(Seq<char>, Seq<char>)>)
    decreases text.len() - i,
{
    if i < 0 || i >= text.len() {
        (
            st,
            if plain.len() > 0 {
                out.push((classes_of(st), plain))
            } else {
                out
            },
        )
    } else if text[i] == '\x1b' && i + 1 < text.len() && text[i + 1] == '[' {
        let ps = i + 2;
        let pe = scan_range(text, ps, 0x30, 0x3f);
        let j = scan_range(text, pe, 0x20, 0x2f);
        proof {
            lemma_scan_range(text, ps, 0x30, 0x3f);
            lemma_scan_range(text, pe, 0x20, 0x2f);
        }
        if j < text.len() && 0x40 <= (text[j] as u32) <= 0x7e {
            if text[j] == 'm' {
                let flushed = if plain.len() > 0 {
                    out.push((classes_of(st), plain))
                } else {
                    out
                };
                sgr_run(
                    text,
                    j + 1,
                    apply_codes(st, param_codes(text.subrange(ps, pe)), 0),
                    Seq::empty(),
                    flushed,
                )
            } else {
                sgr_run(text, j + 1, st, plain, out)
            }
        } else {
            sgr_run(text, j, st, plain, out)
        }
    } else {
        sgr_run(text, i + 1, st, plain.push(text[i]), out)
    }
}

pub proof fn lemma_scan_range(text: Seq<char>, k: int, lo: u32, hi: u32)
    requires
        0 <= k <= text.len(),
    ensures
        k <= scan_range(text, k, lo, hi) <= text.len(),
        forall|m: int| k <= m < scan_range(text, k, lo, hi) ==> lo <= (#[trigger] text[m] as u32) <= hi,
        scan_range(text, k, lo, hi) < text.len() ==> !(lo <= (text[scan_range(text, k, lo, hi)] as u32)
            <= hi),
    decreases text.len() - k,
{
    if k < text.len() && lo <= (text[k] as u32) <= hi {
        lemma_scan_range(text, k + 1, lo, hi);
    }
}

fn scan_range_v(text: &Vec<char>, k: usize, lo: u32, hi: u32) -> (r: usize)
    requires
        k <= text.len(),
    ensures
        r == scan_range(text@, ix(k), lo, hi),
        k <= r <= text.len(),
{
    proof {
        lemma_scan_range(text@, ix(k), lo, hi);
    }
    let mut j: usize = k;
    while j < text.len() && lo <= (text[j] as u32) && (text[j] as u32) <= hi
        invariant
            k <= j <= text.len(),
            scan_range(text@, ix(k), lo, hi) == scan_range(text@, ix(j), lo, hi),
        decreases text.len() - j,
    {
        j += 1;
    }
    j
}

/// The value of one parameter.
fn param_value_v(p: &Vec<char>) -> (n: u16)
    ensures
        n == param_value(p@),
{
    if p.len() == 0 {
        0
    } else if p[0] == '+' && p.len() > 1 {
        let q = slice_of(p, 1, p.len());
        assert(q@ =~= p@.skip(1));
        digits_value_v(&q)
    } else {
        digits_value_v(p)
    }
}

fn digits_value_v(p: &Vec<char>) -> (n: u16)
    requires
        p.len() > 0,
    ensures
        n == digits_value(p@),
{
    let mut v: u32 = 0;
    let mut i: usize = 0;
    while i < p.len()
        invariant
            i <= p.len(),
            p.len() > 0,
            all_digits(p@.take(ix(i))),
            v == decimal(p@.take(ix(i))),
            v <= 65535,
        decreases p.len() - i,
    {
        let c = p[i];
        if !('0' <= c && c <= '9') {
            assert(!all_digits(p@)) by {
                assert(!is_digit(p@[ix(i)]));
            }
            return 65535;
        }
        proof {
            assert(p@.take(ix(i) + 1).drop_last() =~= p@.take(ix(i)));
            assert(p@.take(ix(i) + 1).last() == c);
            assert forall|m: int| 0 <= m < i + 1 implies is_digit(#[trigger] p@.take(ix(i) + 1)[m]) by {
                if m < i {
                    assert(p@.take(ix(i) + 1)[m] == p@.take(ix(i))[m]);
                }
            }
        }
        let d: u32 = (c as u32) - ('0' as u32);
        let nv: u32 = v * 10 + d;
        if nv > 65535 {
            proof {
                lemma_decimal_prefix_bound(p@, ix(i) + 1);
            }
            return 65535;
        }
        v = nv;
        i += 1;
    }
    assert(p@.take(ix(i)) =~= p@);
    v as u16
}

/// A digit string's value is at least that of any of its prefixes.
proof fn lemma_decimal_prefix_bound(s: Seq<char>, k: int)
    requires
        0 <= k <= s.len(),
        all_digits(s.take(k)),
    ensures
        all_digits(s) ==> decimal(s) >= decimal(s.take(k)),
    decreases s.len() - k,
{
    if k < s.len() && all_digits(s) {
        assert forall|m: int| 0 <= m < k + 1 implies is_digit(#[trigger] s.take(k + 1)[m]) by {
            assert(s.take(k + 1)[m] == s[m]);
        }
        lemma_decimal_prefix_bound(s, k + 1);
        assert(s.take(k + 1).drop_last() =~= s.take(k));
    } else if k == s.len() {
        assert(s.take(k) =~= s);
    }
}

/// `str::split(c)` on characters.
pub fn split_char_v(v: &Vec<char>, c: char) -> (r: Vec<Vec<char>>)
    ensures
        r.deep_view() == split_on(v@, c),
{
    let mut out: Vec<Vec<char>> = Vec::new();
    let mut i: usize = 0;
    loop
        invariant
            i <= v.len(),
            split_on(v@, c) == out.deep_view() + pieces_from(v@, c, ix(i)),
        decreases v.len() - i,
    {
        proof {
            lemma_pieces_step(v@, c, ix(i));
        }
        let mut j: usize = i;
        while j < v.len() && v[j] != c
            invariant
                i <= j <= v.len(),
                forall|m: int| i <= m < j ==> v@[m] != c,
            decreases v.len() - j,
        {
            j += 1;
        }
        let piece = crate::text::slice_of(v, i, j);
        let ghost pv = piece@;
        assert(piece.deep_view() =~= pv);
        let ghost before = out.deep_view();
        proof {
            crate::markdown::preprocess::lemma_find_from(v@, c, ix(i));
            if j < v.len() {
                crate::markdown::preprocess::lemma_find_from_unique(v@, c, ix(i), ix(j));
            } else {
                crate::markdown::preprocess::lemma_find_from_unique(v@, c, ix(i), -1);
                assert(pv =~= v@.skip(ix(i)));
            }
        }
        out.push(piece);
        assert(out.deep_view() =~= before.push(pv));
        if j == v.len() {
            assert(split_on(v@, c) =~= out.deep_view());
            return out;
        }
        assert(split_on(v@, c) =~= out.deep_view() + pieces_from(v@, c, ix(j) + 1));
        i = j + 1;
    }
}

fn push_part(parts: &mut Vec<Vec<char>>, s: &str)
    ensures
        final(parts).deep_view() == old(parts).deep_view().push(s@),
{
    let v = to_chars(s);
    let ghost before = parts.deep_view();
    assert(v.deep_view() =~= s@);
    parts.push(v);
    assert(parts.deep_view() =~= before.push(s@));
}

impl SgrState {
    /// The class list of the current state; empty when plain.
    pub fn classes(&self) -> (r: String)
        ensures
            r@ == classes_of(*self),
    {
        let mut out: Vec<char> = Vec::new();
        let mut parts: Vec<Vec<char>> = Vec::new();
        assert(parts.deep_view() =~= Seq::<Seq<char>>::empty());
        if self.bold {
            push_part(&mut parts, "ansi-bold");
        }
        if self.dim {
            push_part(&mut parts, "ansi-dim");
        }
        if self.italic {
            push_part(&mut parts, "ansi-italic");
        }
        if self.underline {
            push_part(&mut parts, "ansi-underline");
        }
        match self.fg {
            Some(k) => {
                let f = fg_class(k);
                push_part(&mut parts, f.as_str());
            },
            None => {},
        }
        assert(parts.deep_view() =~= class_parts(*self));
        crate::sidebar::join_push_sep(&mut out, &parts, " ");
        from_chars(&out)
    }

    /// Apply one SGR parameter string (`1;36`).
    pub fn apply_sgr(&mut self, params: &Vec<char>)
        ensures
            *final(self) == apply_codes(*old(self), param_codes(params@), 0),
    {
        let pieces = split_char_v(params, ';');
        let ghost pd = pieces.deep_view();
        let mut nums: Vec<u16> = Vec::new();
        let mut k: usize = 0;
        while k < pieces.len()
            invariant
                k <= pieces.len(),
                pd == pieces.deep_view(),
                pd == split_on(params@, ';'),
                nums.len() == k,
                *self == *old(self),
                forall|m: int| 0 <= m < k ==> #[trigger] nums@[m] == param_value(pd[m]),
            decreases pieces.len() - k,
        {
            let n = param_value_v(&pieces[k]);
            assert(pd[ix(k)] == pieces@[ix(k)]@);
            nums.push(n);
            k += 1;
        }
        let ghost codes = param_codes(params@);
        assert(codes.len() == nums.len());
        assert forall|m: int| 0 <= m < nums.len() implies #[trigger] codes[m] == nums@[m] by {}
        let mut i: usize = 0;
        let ghost start = *self;
        while i < nums.len()
            invariant
                codes.len() == nums.len(),
                codes == param_codes(params@),
                start == *old(self),
                forall|m: int| 0 <= m < nums.len() ==> #[trigger] codes[m] == nums@[m],
                apply_codes(start, codes, 0) == apply_codes(*self, codes, ix(i)),
            decreases nums.len() - i,
        {
            let n = nums[i];
            if n == 38 || n == 48 || n == 58 {
                proof {
                    assert(codes[ix(i)] == n);
                    if i + 1 < nums.len() {
                        assert(codes[ix(i) + 1] == nums@[ix(i) + 1]);
                    }
                }
                let step: usize = if i + 1 < nums.len() && nums[i + 1] == 5 {
                    2
                } else if i + 1 < nums.len() && nums[i + 1] == 2 {
                    4
                } else {
                    0
                };
                if step >= nums.len() - i {
                    assert(apply_codes(*self, codes, ix(i)) == *self);
                    return;
                }
                i = i + step + 1;
            } else {
                if n == 0 {
                    *self = SgrState { fg: None, bold: false, dim: false, italic: false, underline: false };
                } else if n == 1 {
                    self.bold = true;
                } else if n == 2 {
                    self.dim = true;
                } else if n == 3 {
                    self.italic = true;
                } else if n == 4 {
                    self.underline = true;
                } else if n == 21 || n == 22 {
                    self.bold = false;
                    self.dim = false;
                } else if n == 23 {
                    self.italic = false;
                } else if n == 24 {
                    self.underline = false;
                } else if 30 <= n && n <= 37 {
                    self.fg = Some((n - 30) as u8);
                } else if n == 39 {
                    self.fg = Some(16);
                } else if 90 <= n && n <= 97 {
                    self.fg = Some((n - 90 + 8) as u8);
                }
                i += 1;
            }
        }
    }

    /// Split one rendered line into (class-list, text) segments, carrying
    /// the SGR state across segments and, through `self`, across lines.
    pub fn segments(&mut self, text: &str) -> (r: Vec<(String, String)>)
        ensures
            (*final(self), r.deep_view()) == sgr_run(text@, 0, *old(self), Seq::empty(), Seq::empty()),
    {
        let t = to_chars(text);
        let mut out: Vec<(String, String)> = Vec::new();
        let mut plain: Vec<char> = Vec::new();
        let mut i: usize = 0;
        let ghost goal = sgr_run(text@, 0, *self, Seq::empty(), Seq::empty());
        assert(plain@ =~= Seq::<char>::empty());
        assert(out.deep_view() =~= Seq::<(Seq<char>, Seq<char>)>::empty());
        while i < t.len()
            invariant
                i <= t.len(),
                t@ == text@,
                goal == sgr_run(t@, ix(i), *self, plain@, out.deep_view()),
            decreases t.len() - i,
        {
            if t[i] == '\x1b' && i + 1 < t.len() && t[i + 1] == '[' {
                let ps = i + 2;
                let pe = scan_range_v(&t, ps, 0x30, 0x3f);
                let j = scan_range_v(&t, pe, 0x20, 0x2f);
                if j < t.len() && 0x40 <= (t[j] as u32) && (t[j] as u32) <= 0x7e {
                    if t[j] == 'm' {
                        if plain.len() > 0 {
                            let ghost before = out.deep_view();
                            let c = self.classes();
                            out.push((c, from_chars(&plain)));
                            assert(out.deep_view() =~= before.push((classes_of(*self), plain@)));
                        }
                        let params = crate::text::slice_of(&t, ps, pe);
                        assert(params@ =~= t@.subrange(ix(ps), ix(pe)));
                        self.apply_sgr(&params);
                        plain = Vec::new();
                        assert(plain@ =~= Seq::<char>::empty());
                    }
                    i = j + 1;
                } else {
                    i = j;
                }
            } else {
                plain.push(t[i]);
                i += 1;
            }
        }
        if plain.len() > 0 {
            let ghost before = out.deep_view();
            let c = self.classes();
            out.push((c, from_chars(&plain)));
            assert(out.deep_view() =~= before.push((classes_of(*self), plain@)));
        }
        out
    }
}


// ── capture classes ────────────────────────────────────────────────────

/// The modern scope a legacy markdown capture name maps onto.
pub open spec fn normalized_capture(c: Seq<char>) -> Seq<char> {
    if c == "text.title"@ {
        "markup.heading"@
    } else if c == "text.literal"@ {
        "markup.raw.inline"@
    } else if c == "text.uri"@ || c == "text.reference"@ {
        "markup.link.url"@
    } else if c == "text.emphasis"@ || c == "text.underline"@ || c == "text.strike"@ {
        "markup.italic"@
    } else if c == "text.strong"@ {
        "markup.bold"@
    } else if c == "text.quote"@ {
        "markup.quote"@
    } else {
        c
    }
}

/// `.` → `-`.
pub open spec fn dots_to_dashes(s: Seq<char>) -> Seq<char> {
    s.map_values(|c: char| if c == '.' { '-' } else { c })
}

/// The CSS class of a capture name.
pub open spec fn spec_tk_class(capture: Seq<char>) -> Seq<char> {
    "tk-"@ + dots_to_dashes(normalized_capture(capture))
}

/// CSS class for a capture name (dots become dashes); the legacy
/// `text.*` captures of the markdown grammars are normalized first.
pub fn tk_class(capture: &str) -> (r: String)
    ensures
        r@ == spec_tk_class(capture@),
{
    let v = to_chars(capture);
    let c: &str = if eq_str(&v, "text.title") {
        "markup.heading"
    } else if eq_str(&v, "text.literal") {
        "markup.raw.inline"
    } else if eq_str(&v, "text.uri") || eq_str(&v, "text.reference") {
        "markup.link.url"
    } else if eq_str(&v, "text.emphasis") || eq_str(&v, "text.underline") || eq_str(&v, "text.strike") {
        "markup.italic"
    } else if eq_str(&v, "text.strong") {
        "markup.bold"
    } else if eq_str(&v, "text.quote") {
        "markup.quote"
    } else {
        capture
    };
    let cv = to_chars(c);
    let mut out = to_chars("tk-");
    let ghost start = out@;
    let mut i: usize = 0;
    while i < cv.len()
        invariant
            i <= cv.len(),
            out@ == start + dots_to_dashes(cv@.take(ix(i))),
        decreases cv.len() - i,
    {
        let ch = cv[i];
        out.push(if ch == '.' { '-' } else { ch });
        assert(dots_to_dashes(cv@.take(ix(i) + 1)) =~= dots_to_dashes(cv@.take(ix(i))).push(
            if ch == '.' { '-' } else { ch },
        ));
        i += 1;
    }
    assert(cv@.take(ix(i)) =~= cv@);
    from_chars(&out)
}

// ── fence metadata ─────────────────────────────────────────────────────

/// Per-fence line-number setting (`ln=true` / `ln=false` / `ln=5`).
#[derive(Debug, Clone, Copy, PartialEq, Eq)]
pub enum LineNumbers {
    On,
    Off,
    From(usize),
}

/// The parsed fence metadata carried in the rewritten info string.
#[derive(Debug)]
pub struct FenceSpec {
    pub lang: String,
    pub label: Option<String>,
    /// The fence sits inside a `::: code-group`: its label names a tab,
    /// so it must not become a standalone block title.
    pub group: bool,
    /// 1-based highlighted line numbers.
    pub hl: Vec<usize>,
    pub ln: Option<LineNumbers>,
}

/// `str::parse::<usize>`: an optional `+`, then decimal digits whose
/// value fits.
pub open spec fn parse_usize(s: Seq<char>) -> Option<nat> {
    let d = if s.len() > 0 && s[0] == '+' {
        s.skip(1)
    } else {
        s
    };
    if d.len() > 0 && all_digits(d) && decimal(d) <= usize::MAX {
        Some(decimal(d))
    } else {
        None
    }
}

pub fn parse_usize_v(s: &Vec<char>) -> (r: Option<usize>)
    ensures
        match r {
            Some(n) => parse_usize(s@) == Some(n as nat),
            None => parse_usize(s@) is None,
        },
{
    let start: usize = if s.len() > 0 && s[0] == '+' {
        1
    } else {
        0
    };
    let ghost d = s@.skip(ix(start));
    assert(s@.skip(0) =~= s@);
    assert(d == (if s@.len() > 0 && s@[0] == '+' { s@.skip(1) } else { s@ }));
    if start >= s.len() {
        return None;
    }
    let mut v: usize = 0;
    let mut i: usize = start;
    assert(d.take(0) =~= Seq::<char>::empty());
    while i < s.len()
        invariant
            start <= i <= s.len(),
            d == s@.skip(ix(start)),
            d == (if s@.len() > 0 && s@[0] == '+' { s@.skip(1) } else { s@ }),
            d.len() > 0,
            d.len() == s.len() - start,
            all_digits(d.take(ix(i) - ix(start))),
            v == decimal(d.take(ix(i) - ix(start))),
        decreases s.len() - i,
    {
        let c = s[i];
        let k = i - start;
        assert(d[ix(k)] == c);
        if !('0' <= c && c <= '9') {
            assert(!all_digits(d)) by {
                assert(!is_digit(d[ix(k)]));
            }
            return None;
        }
        proof {
            assert(d.take(ix(k) + 1).drop_last() =~= d.take(ix(k)));
            assert(d.take(ix(k) + 1).last() == c);
            assert forall|m: int| 0 <= m < k + 1 implies is_digit(#[trigger] d.take(ix(k) + 1)[m]) by {
                if m < k {
                    assert(d.take(ix(k) + 1)[m] == d.take(ix(k))[m]);
                }
            }
        }
        let dg: usize = ((c as u32) - ('0' as u32)) as usize;
        if v > (usize::MAX - dg) / 10 {
            proof {
                assert(decimal(d.take(ix(k) + 1)) == v * 10 + dg);
                assert(v * 10 + dg > usize::MAX) by (nonlinear_arith)
                    requires
                        v > (usize::MAX - dg) / 10,
                        dg <= 9,
                ;
                lemma_decimal_prefix_bound(d, ix(k) + 1);
            }
            return None;
        }
        v = v * 10 + dg;
        i += 1;
    }
    assert(d.take(ix(i) - ix(start)) =~= d);
    Some(v)
}

/// The numbers `a..=b`.
pub open spec fn num_range(a: nat, b: nat) -> Seq<usize> {
    if a <= b {
        Seq::new((b - a + 1) as nat, |i: int| (a + i) as usize)
    } else {
        Seq::empty()
    }
}

/// The line numbers one comma-separated part names: `n`, or `a-b`
/// inclusive; anything unparsable names none.
pub open spec fn part_lines(part: Seq<char>) -> Seq<usize> {
    let p = trim(part);
    if p.len() == 0 {
        Seq::empty()
    } else {
        let k = crate::markdown::preprocess::find_from(p, '-', 0);
        if k >= 0 {
            match (parse_usize(trim(p.take(k))), parse_usize(trim(p.skip(k + 1)))) {
                (Some(a), Some(b)) => num_range(a, b),
                _ => Seq::empty(),
            }
        } else {
            match parse_usize(p) {
                Some(n) => seq![n as usize],
                None => Seq::empty(),
            }
        }
    }
}

/// The concatenated line numbers of several parts.
pub open spec fn parts_lines(parts: Seq<Seq<char>>) -> Seq<usize>
    decreases parts.len(),
{
    if parts.len() == 0 {
        Seq::empty()
    } else {
        parts_lines(parts.drop_last()) + part_lines(parts.last())
    }
}

/// `"1,3-4"` → `[1, 3, 4]`.
pub open spec fn spec_line_spec(spec: Seq<char>) -> Seq<usize> {
    parts_lines(split_on(spec, ','))
}

fn push_range(out: &mut Vec<usize>, a: usize, b: usize)
    ensures
        final(out)@ == old(out)@ + num_range(a as nat, b as nat),
{
    if a > b {
        assert(num_range(a as nat, b as nat) =~= Seq::<usize>::empty());
        assert(out@ =~= old(out)@ + num_range(a as nat, b as nat));
        return;
    }
    let ghost start = out@;
    let mut k: usize = a;
    while k < b
        invariant
            a <= k <= b,
            out@ == start + num_range(a as nat, b as nat).take(k - a),
        decreases b - k,
    {
        out.push(k);
        assert(num_range(a as nat, b as nat).take(k - a + 1) =~= num_range(a as nat, b as nat).take(
            k - a,
        ).push(k));
        k += 1;
    }
    out.push(b);
    assert(num_range(a as nat, b as nat) =~= num_range(a as nat, b as nat).take(b - a).push(b));
}

fn part_lines_v(part: &Vec<char>, out: &mut Vec<usize>)
    ensures
        final(out)@ == old(out)@ + part_lines(part@),
{
    let p = trim_v(part);
    if p.len() == 0 {
        assert(out@ =~= old(out)@ + part_lines(part@));
        return;
    }
    proof {
        crate::markdown::preprocess::lemma_find_from(p@, '-', 0);
    }
    match crate::markdown::preprocess::find_from_v(&p, '-', 0) {
        Some(k) => {
            let a = slice_of(&p, 0, k);
            let b = slice_of(&p, k + 1, p.len());
            assert(a@ =~= p@.take(ix(k)));
            assert(b@ =~= p@.skip(ix(k) + 1));
            let ta = trim_v(&a);
            let tb = trim_v(&b);
            match (parse_usize_v(&ta), parse_usize_v(&tb)) {
                (Some(x), Some(y)) => push_range(out, x, y),
                _ => {
                    assert(out@ =~= old(out)@ + part_lines(part@));
                },
            }
        },
        None => match parse_usize_v(&p) {
            Some(n) => {
                out.push(n);
            },
            None => {
                assert(out@ =~= old(out)@ + part_lines(part@));
            },
        },
    }
}

/// `"1,3-4"` → `[1, 3, 4]`: comma-separated numbers and inclusive
/// ranges; unparsable parts are skipped.
pub fn parse_line_spec(spec: &str) -> (r: Vec<usize>)
    ensures
        r@ == spec_line_spec(spec@),
{
    let v = to_chars(spec);
    let parts = split_char_v(&v, ',');
    let ghost pd = parts.deep_view();
    let mut out: Vec<usize> = Vec::new();
    let mut i: usize = 0;
    assert(pd.take(0) =~= Seq::<Seq<char>>::empty());
    while i < parts.len()
        invariant
            i <= parts.len(),
            pd == parts.deep_view(),
            out@ == parts_lines(pd.take(ix(i))),
        decreases parts.len() - i,
    {
        assert(pd[ix(i)] == parts@[ix(i)]@);
        part_lines_v(&parts[i], &mut out);
        assert(pd.take(ix(i) + 1).drop_last() =~= pd.take(ix(i)));
        i += 1;
    }
    assert(pd.take(ix(i)) =~= pd);
    out
}


/// The end of the non-whitespace run starting at `i`.
pub open spec fn tok_end(s: Seq<char>, i: int) -> int
    decreases s.len() - i,
{
    if i < 0 || i >= s.len() || is_ws(s[i]) {
        i
    } else {
        tok_end(s, i + 1)
    }
}

pub proof fn lemma_tok_end(s: Seq<char>, i: int)
    requires
        0 <= i <= s.len(),
    ensures
        i <= tok_end(s, i) <= s.len(),
        tok_end(s, i) < s.len() ==> is_ws(s[tok_end(s, i)]),
        forall|m: int| i <= m < tok_end(s, i) ==> !is_ws(#[trigger] s[m]),
    decreases s.len() - i,
{
    if i < s.len() && !is_ws(s[i]) {
        lemma_tok_end(s, i + 1);
    }
}

/// The whitespace-separated tokens of `s[i..]` (`str::split_whitespace`).
pub open spec fn ws_tokens_from(s: Seq<char>, i: int) -> Seq<Seq<char>>
    decreases s.len() - i, 1int,
{
    if i < 0 || i >= s.len() {
        Seq::empty()
    } else if is_ws(s[i]) {
        ws_tokens_from(s, i + 1)
    } else {
        let e = tok_end(s, i);
        proof {
            lemma_tok_end(s, i);
        }
        seq![s.subrange(i, e)] + ws_tokens_from(s, e)
    }
}

pub open spec fn ws_tokens(s: Seq<char>) -> Seq<Seq<char>> {
    ws_tokens_from(s, 0)
}

/// `str::split_whitespace`.
pub fn ws_tokens_v(s: &Vec<char>) -> (r: Vec<Vec<char>>)
    ensures
        r.deep_view() == ws_tokens(s@),
{
    let mut out: Vec<Vec<char>> = Vec::new();
    let mut i: usize = 0;
    assert(out.deep_view() =~= Seq::<Seq<char>>::empty());
    while i < s.len()
        invariant
            i <= s.len(),
            ws_tokens(s@) == out.deep_view() + ws_tokens_from(s@, ix(i)),
        decreases s.len() - i,
    {
        if is_ws_char(s[i]) {
            i += 1;
        } else {
            proof {
                lemma_tok_end(s@, ix(i));
            }
            let mut e: usize = i;
            while e < s.len() && !is_ws_char(s[e])
                invariant
                    i <= e <= s.len(),
                    tok_end(s@, ix(i)) == tok_end(s@, ix(e)),
                decreases s.len() - e,
            {
                e += 1;
            }
            let t = slice_of(s, i, e);
            let ghost tv = t@;
            assert(t.deep_view() =~= tv);
            let ghost before = out.deep_view();
            out.push(t);
            assert(out.deep_view() =~= before.push(tv));
            assert(ws_tokens(s@) =~= out.deep_view() + ws_tokens_from(s@, ix(e)));
            i = e;
        }
    }
    assert(out.deep_view() + ws_tokens_from(s@, ix(i)) =~= out.deep_view());
    out
}

/// The index of the last token starting with `p`, or -1.
pub open spec fn last_with_prefix(toks: Seq<Seq<char>>, p: Seq<char>) -> int
    decreases toks.len(),
{
    if toks.len() == 0 {
        -1
    } else if starts_with(toks.last(), p) {
        toks.len() - 1
    } else {
        last_with_prefix(toks.drop_last(), p)
    }
}

pub proof fn lemma_last_with_prefix(toks: Seq<Seq<char>>, p: Seq<char>)
    ensures
        -1 <= last_with_prefix(toks, p) < toks.len(),
        last_with_prefix(toks, p) >= 0 ==> starts_with(toks[last_with_prefix(toks, p)], p),
    decreases toks.len(),
{
    if toks.len() > 0 && !starts_with(toks.last(), p) {
        lemma_last_with_prefix(toks.drop_last(), p);
    }
}

/// The value of the last `key=` token, if any.
pub open spec fn last_value(toks: Seq<Seq<char>>, key: Seq<char>) -> Option<Seq<char>> {
    let k = last_with_prefix(toks, key);
    if k >= 0 {
        Some(toks[k].skip(key.len() as int))
    } else {
        None
    }
}

proof fn lemma_last_value_step(toks: Seq<Seq<char>>, key: Seq<char>)
    requires
        toks.len() > 0,
    ensures
        last_value(toks, key) == if starts_with(toks.last(), key) {
            Some(toks.last().skip(key.len() as int))
        } else {
            last_value(toks.drop_last(), key)
        },
{
    lemma_last_with_prefix(toks.drop_last(), key);
    let k = last_with_prefix(toks.drop_last(), key);
    if k >= 0 {
        assert(toks[k] == toks.drop_last()[k]);
    }
}

/// An `ln=` value: `true`, `false`, else a starting number (1 when
/// unparsable).
pub open spec fn ln_setting(v: Seq<char>) -> LineNumbers {
    if v == "true"@ {
        LineNumbers::On
    } else if v == "false"@ {
        LineNumbers::Off
    } else {
        LineNumbers::From(
            match parse_usize(v) {
                Some(n) => n as usize,
                None => 1,
            },
        )
    }
}

/// Where the label starts in a fence's metadata (after ` label=`), or -1.
pub open spec fn label_at(meta: Seq<char>) -> int {
    find_seq_from(meta, " label="@, 0)
}

/// The metadata before the label.
pub open spec fn meta_rest(meta: Seq<char>) -> Seq<char> {
    if label_at(meta) >= 0 {
        meta.take(label_at(meta))
    } else {
        meta
    }
}

/// The label: everything after ` label=`, when not empty.
pub open spec fn meta_label(meta: Seq<char>) -> Option<Seq<char>> {
    if label_at(meta) >= 0 && label_at(meta) + 7 < meta.len() {
        Some(meta.skip(label_at(meta) + 7))
    } else {
        None
    }
}

proof fn lemma_prefix_char(t: Seq<char>, p: Seq<char>, k: int)
    requires
        starts_with(t, p),
        0 <= k < p.len(),
    ensures
        t[k] == p[k],
{
    assert(t.take(p.len() as int)[k] == t[k]);
}

pub open spec fn occurs_at_len(s: Seq<char>, p: Seq<char>, i: int) -> bool {
    crate::markdown::preprocess::occurs_at(s, p, i) && 0 <= i && i + p.len() <= s.len()
}

/// Everything `FenceSpec::parse_meta` reads from the metadata.
pub open spec fn meta_ok(r: FenceSpec, meta: Seq<char>) -> bool {
    let toks = ws_tokens(meta_rest(meta));
    &&& opt_str(r.label) == meta_label(meta)
    &&& r.lang@ == match last_value(toks, "lang="@) {
        Some(v) => v,
        None => Seq::empty(),
    }
    &&& r.group == exists|k: int| 0 <= k < toks.len() && toks[k] == "group=1"@
    &&& r.hl@ == match last_value(toks, "hl="@) {
        Some(v) => spec_line_spec(v),
        None => Seq::empty(),
    }
    &&& r.ln == match last_value(toks, "ln="@) {
        Some(v) => Some(ln_setting(v)),
        None => None,
    }
}

pub open spec fn opt_str(o: Option<String>) -> Option<Seq<char>> {
    match o {
        Some(s) => Some(s@),
        None => None,
    }
}

impl FenceSpec {
    /// Parse `lang=js hl=1,3-4 ln=true label=npm` (the label comes last
    /// and may contain spaces); later tokens of a kind override earlier
    /// ones, an empty label is none.
    pub fn parse_meta(meta: &str) -> (r: FenceSpec)
        ensures
            meta_ok(r, meta@),
    {
        let m = to_chars(meta);
        let key = to_chars(" label=");
        proof {
            reveal_strlit(" label=");
            reveal_strlit("lang=");
            reveal_strlit("hl=");
            reveal_strlit("ln=");
            lemma_find_seq_from(m@, key@, 0);
        }
        let (rest, label) = match find_seq_v(&m, &key) {
            Some(idx) => {
                assert(occurs_at_len(m@, key@, ix(idx)));
                let lab = if m.len() - idx > 7 {
                    let l = slice_of(&m, idx + 7, m.len());
                    assert(l@ =~= m@.skip(ix(idx) + 7));
                    Some(from_chars(&l))
                } else {
                    None
                };
                let r = slice_of(&m, 0, idx);
                assert(r@ =~= m@.take(ix(idx)));
                (r, lab)
            },
            None => (m.clone(), None),
        };
        let toks = ws_tokens_v(&rest);
        let ghost td = toks.deep_view();
        let mut lang = String::new();
        let mut group = false;
        let mut hl: Vec<usize> = Vec::new();
        let mut ln: Option<LineNumbers> = None;
        let mut i: usize = 0;
        assert(td.take(0) =~= Seq::<Seq<char>>::empty());
        while i < toks.len()
            invariant
                i <= toks.len(),
                td == toks.deep_view(),
                lang@ == match last_value(td.take(ix(i)), "lang="@) {
                    Some(v) => v,
                    None => Seq::empty(),
                },
                group == exists|k: int| 0 <= k < i && td[k] == "group=1"@,
                hl@ == match last_value(td.take(ix(i)), "hl="@) {
                    Some(v) => spec_line_spec(v),
                    None => Seq::empty(),
                },
                ln == match last_value(td.take(ix(i)), "ln="@) {
                    Some(v) => Some(ln_setting(v)),
                    None => None,
                },
            decreases toks.len() - i,
        {
            proof {
                reveal_strlit("lang=");
                reveal_strlit("hl=");
                reveal_strlit("ln=");
            }
            let t = &toks[i];
            assert(td[ix(i)] == t@);
            let ghost nt = td.take(ix(i) + 1);
            assert(nt.drop_last() =~= td.take(ix(i)));
            assert(nt.last() == t@);
            if starts_with_str(t, "lang=") {
                let v = slice_of(t, 5, t.len());
                assert(v@ =~= t@.skip(5));
                lang = from_chars(&v);
            } else if eq_str(t, "group=1") {
                group = true;
            } else if starts_with_str(t, "hl=") {
                let v = slice_of(t, 3, t.len());
                assert(v@ =~= t@.skip(3));
                let vs = from_chars(&v);
                hl = parse_line_spec(vs.as_str());
            } else if starts_with_str(t, "ln=") {
                let v = slice_of(t, 3, t.len());
                assert(v@ =~= t@.skip(3));
                ln = Some(
                    if eq_str(&v, "true") {
                        LineNumbers::On
                    } else if eq_str(&v, "false") {
                        LineNumbers::Off
                    } else {
                        LineNumbers::From(
                            match parse_usize_v(&v) {
                                Some(n) => n,
                                None => 1,
                            },
                        )
                    },
                );
            }
            proof {
                reveal_strlit("group=1");
                if starts_with(t@, "lang="@) {
                    lemma_prefix_char(t@, "lang="@, 0);
                }
                if starts_with(t@, "hl="@) {
                    lemma_prefix_char(t@, "hl="@, 0);
                }
                if starts_with(t@, "ln="@) {
                    lemma_prefix_char(t@, "ln="@, 0);
                    lemma_prefix_char(t@, "ln="@, 1);
                }
                if t@ == "group=1"@ {
                    assert(t@[0] == 'g');
                }
                lemma_last_value_step(nt, "lang="@);
                lemma_last_value_step(nt, "hl="@);
                lemma_last_value_step(nt, "ln="@);
                assert((exists|k: int| 0 <= k < i + 1 && td[k] == "group=1"@) == (group)) by {
                    if t@ == "group=1"@ {
                        assert(td[ix(i)] == "group=1"@);
                    }
                }
            }
            i += 1;
        }
        assert(td.take(ix(i)) =~= td);
        FenceSpec { lang, label, group, hl, ln }
    }
}


// ── syntax.css ─────────────────────────────────────────────────────────

/// How many capture names the highlighter is configured with.
pub const CAPTURE_COUNT: usize = 56;

/// The `i`-th tree-sitter capture name the highlighter is configured
/// with; `syntax.css` carries at most one rule per name.
pub open spec fn capture_name_at(i: int) -> Seq<char> {
    if i == 0 {
        "attribute"@
    } else if i == 1 {
        "comment"@
    } else if i == 2 {
        "comment.documentation"@
    } else if i == 3 {
        "constant"@
    } else if i == 4 {
        "constant.builtin"@
    } else if i == 5 {
        "constant.builtin.boolean"@
    } else if i == 6 {
        "constructor"@
    } else if i == 7 {
        "function"@
    } else if i == 8 {
        "function.builtin"@
    } else if i == 9 {
        "function.macro"@
    } else if i == 10 {
        "function.method"@
    } else if i == 11 {
        "keyword"@
    } else if i == 12 {
        "keyword.control.conditional"@
    } else if i == 13 {
        "keyword.control.import"@
    } else if i == 14 {
        "keyword.control.repeat"@
    } else if i == 15 {
        "keyword.control.return"@
    } else if i == 16 {
        "keyword.function"@
    } else if i == 17 {
        "keyword.operator"@
    } else if i == 18 {
        "keyword.storage"@
    } else if i == 19 {
        "keyword.storage.type"@
    } else if i == 20 {
        "label"@
    } else if i == 21 {
        "namespace"@
    } else if i == 22 {
        "operator"@
    } else if i == 23 {
        "punctuation.bracket"@
    } else if i == 24 {
        "punctuation.delimiter"@
    } else if i == 25 {
        "punctuation.special"@
    } else if i == 26 {
        "string"@
    } else if i == 27 {
        "string.escape"@
    } else if i == 28 {
        "string.special"@
    } else if i == 29 {
        "tag"@
    } else if i == 30 {
        "tag.attribute"@
    } else if i == 31 {
        "type"@
    } else if i == 32 {
        "type.builtin"@
    } else if i == 33 {
        "type.definition"@
    } else if i == 34 {
        "variable"@
    } else if i == 35 {
        "variable.builtin"@
    } else if i == 36 {
        "variable.member"@
    } else if i == 37 {
        "variable.parameter"@
    } else if i == 38 {
        "markup.heading"@
    } else if i == 39 {
        "markup.bold"@
    } else if i == 40 {
        "markup.italic"@
    } else if i == 41 {
        "markup.list"@
    } else if i == 42 {
        "markup.quote"@
    } else if i == 43 {
        "markup.link.url"@
    } else if i == 44 {
        "markup.raw.inline"@
    } else if i == 45 {
        "diff.plus"@
    } else if i == 46 {
        "diff.minus"@
    } else if i == 47 {
        "text.title"@
    } else if i == 48 {
        "text.literal"@
    } else if i == 49 {
        "text.uri"@
    } else if i == 50 {
        "text.emphasis"@
    } else if i == 51 {
        "text.strong"@
    } else if i == 52 {
        "text.quote"@
    } else if i == 53 {
        "text.underline"@
    } else if i == 54 {
        "text.strike"@
    } else if i == 55 {
        "text.reference"@
    } else {
        Seq::empty()
    }
}

/// The capture names, in order.
pub open spec fn spec_capture_names() -> Seq<Seq<char>> {
    Seq::new(CAPTURE_COUNT as nat, |i: int| capture_name_at(i))
}

/// The `i`-th capture name.
pub fn capture_name(i: usize) -> (r: &'static str)
    requires
        i < CAPTURE_COUNT,
    ensures
        r@ == capture_name_at(i as int),
{
    if i == 0 {
            "attribute"
        } else if i == 1 {
            "comment"
        } else if i == 2 {
            "comment.documentation"
        } else if i == 3 {
            "constant"
        } else if i == 4 {
            "constant.builtin"
        } else if i == 5 {
            "constant.builtin.boolean"
        } else if i == 6 {
            "constructor"
        } else if i == 7 {
            "function"
        } else if i == 8 {
            "function.builtin"
        } else if i == 9 {
            "function.macro"
        } else if i == 10 {
            "function.method"
        } else if i == 11 {
            "keyword"
        } else if i == 12 {
            "keyword.control.conditional"
        } else if i == 13 {
            "keyword.control.import"
        } else if i == 14 {
            "keyword.control.repeat"
        } else if i == 15 {
            "keyword.control.return"
        } else if i == 16 {
            "keyword.function"
        } else if i == 17 {
            "keyword.operator"
        } else if i == 18 {
            "keyword.storage"
        } else if i == 19 {
            "keyword.storage.type"
        } else if i == 20 {
            "label"
        } else if i == 21 {
            "namespace"
        } else if i == 22 {
            "operator"
        } else if i == 23 {
            "punctuation.bracket"
        } else if i == 24 {
            "punctuation.delimiter"
        } else if i == 25 {
            "punctuation.special"
        } else if i == 26 {
            "string"
        } else if i == 27 {
            "string.escape"
        } else if i == 28 {
            "string.special"
        } else if i == 29 {
            "tag"
        } else if i == 30 {
            "tag.attribute"
        } else if i == 31 {
            "type"
        } else if i == 32 {
            "type.builtin"
        } else if i == 33 {
            "type.definition"
        } else if i == 34 {
            "variable"
        } else if i == 35 {
            "variable.builtin"
        } else if i == 36 {
            "variable.member"
        } else if i == 37 {
            "variable.parameter"
        } else if i == 38 {
            "markup.heading"
        } else if i == 39 {
            "markup.bold"
        } else if i == 40 {
            "markup.italic"
        } else if i == 41 {
            "markup.list"
        } else if i == 42 {
            "markup.quote"
        } else if i == 43 {
            "markup.link.url"
        } else if i == 44 {
            "markup.raw.inline"
        } else if i == 45 {
            "diff.plus"
        } else if i == 46 {
            "diff.minus"
        } else if i == 47 {
            "text.title"
        } else if i == 48 {
            "text.literal"
        } else if i == 49 {
            "text.uri"
        } else if i == 50 {
            "text.emphasis"
        } else if i == 51 {
            "text.strong"
        } else if i == 52 {
            "text.quote"
        } else if i == 53 {
            "text.underline"
        } else if i == 54 {
            "text.strike"
        } else if i == 55 {
            "text.reference"
        } else {
        ""
    }
}

/// The ANSI colour rules (GitHub terminal palette, light and dark).
pub const ANSI_CSS: &'static str = "  .ansi-bold { font-weight: 700; }\n  .ansi-dim { opacity: 0.67; }\n  .ansi-italic { font-style: italic; }\n  .ansi-underline { text-decoration: underline; }\n  .ansi-fg-default { color: #24292e; }\n  .ansi-fg-black { color: #24292e; }\n  .ansi-fg-red { color: #d73a49; }\n  .ansi-fg-green { color: #0e790b; }\n  .ansi-fg-yellow { color: #dbab09; }\n  .ansi-fg-blue { color: #0366d6; }\n  .ansi-fg-magenta { color: #5a32a3; }\n  .ansi-fg-cyan { color: #06747a; }\n  .ansi-fg-white { color: #6a737d; }\n  .ansi-fg-bright-black { color: #6c676f; }\n  .ansi-fg-bright-red { color: #cb2431; }\n  .ansi-fg-bright-green { color: #22863a; }\n  .ansi-fg-bright-yellow { color: #b08800; }\n  .ansi-fg-bright-blue { color: #005cc5; }\n  .ansi-fg-bright-magenta { color: #5a32a3; }\n  .ansi-fg-bright-cyan { color: #3192aa; }\n  .ansi-fg-bright-white { color: #d1d5da; }\n  html.dark .ansi-fg-default { color: #e1e4e8; }\n  html.dark .ansi-fg-black { color: #586069; }\n  html.dark .ansi-fg-red { color: #ea4a5a; }\n  html.dark .ansi-fg-green { color: #34d058; }\n  html.dark .ansi-fg-yellow { color: #ffea7f; }\n  html.dark .ansi-fg-blue { color: #2188ff; }\n  html.dark .ansi-fg-magenta { color: #b392f0; }\n  html.dark .ansi-fg-cyan { color: #39c5cf; }\n  html.dark .ansi-fg-white { color: #d1d5da; }\n  html.dark .ansi-fg-bright-black { color: #959da5; }\n  html.dark .ansi-fg-bright-red { color: #f97583; }\n  html.dark .ansi-fg-bright-green { color: #85e89d; }\n  html.dark .ansi-fg-bright-yellow { color: #ffea7f; }\n  html.dark .ansi-fg-bright-blue { color: #79b8ff; }\n  html.dark .ansi-fg-bright-magenta { color: #b392f0; }\n  html.dark .ansi-fg-bright-cyan { color: #56d4dd; }\n  html.dark .ansi-fg-bright-white { color: #fafbfc; }\n";

/// The CSS declarations of a style.
pub open spec fn style_decls(st: StyleView) -> Seq<char> {
    (match st.0 {
        Some(fg) => "  color: "@ + fg + ";\n"@,
        None => Seq::empty(),
    }) + (match st.1 {
        Some(bg) => "  background-color: "@ + bg + ";\n"@,
        None => Seq::empty(),
    }) + (if st.2 {
        "  font-weight: 600;\n"@
    } else {
        Seq::empty()
    }) + (if st.3 {
        "  font-style: italic;\n"@
    } else {
        Seq::empty()
    }) + (if st.4 {
        "  text-decoration: underline;\n"@
    } else {
        Seq::empty()
    })
}

/// A style that sets nothing.
pub open spec fn style_is_blank(st: StyleView) -> bool {
    st.0 is None && st.1 is None && !st.2 && !st.3 && !st.4
}

/// The rule for one capture name under a scope prefix; none when the
/// theme leaves the name unstyled.
pub open spec fn capture_rule(m: Map<Seq<char>, StyleView>, prefix: Seq<char>, name: Seq<char>) -> Seq<char> {
    match resolve_scope(m, name) {
        Some(st) => if style_is_blank(st) {
            Seq::empty()
        } else {
            prefix + "."@ + spec_tk_class(name) + " {\n"@ + style_decls(st) + "}\n"@
        },
        None => Seq::empty(),
    }
}

/// The rules for a list of capture names.
pub open spec fn theme_rules(m: Map<Seq<char>, StyleView>, prefix: Seq<char>, names: Seq<Seq<char>>) -> Seq<char>
    decreases names.len(),
{
    if names.len() == 0 {
        Seq::empty()
    } else {
        theme_rules(m, prefix, names.drop_last()) + capture_rule(m, prefix, names.last())
    }
}

/// The dual-theme stylesheet text.
pub open spec fn spec_syntax_css(light: Map<Seq<char>, StyleView>, dark: Map<Seq<char>, StyleView>) -> Seq<char> {
    "@layer syntax {\n"@ + theme_rules(light, Seq::empty(), spec_capture_names()) + theme_rules(
        dark,
        "html.dark "@,
        spec_capture_names(),
    ) + ANSI_CSS@ + "}\n"@
}

fn push_opt_decl(out: &mut Vec<char>, pre: &str, v: &Option<String>)
    ensures
        final(out)@ == old(out)@ + match v.deep_view() {
            Some(x) => pre@ + x + ";\n"@,
            None => Seq::<char>::empty(),
        },
{
    match v {
        Some(x) => {
            push_str(out, pre);
            push_str(out, x.as_str());
            push_str(out, ";\n");
        },
        None => {
            assert(out@ =~= old(out)@ + Seq::<char>::empty());
        },
    }
}

fn push_flag_decl(out: &mut Vec<char>, on: bool, decl: &str)
    ensures
        final(out)@ == old(out)@ + if on {
            decl@
        } else {
            Seq::<char>::empty()
        },
{
    if on {
        push_str(out, decl);
    } else {
        assert(out@ =~= old(out)@ + Seq::<char>::empty());
    }
}

/// Appends the rule of one capture name.
fn push_capture_rule(out: &mut Vec<char>, theme: &SyntaxTheme, prefix: &str, name: &str)
    requires
        theme.wf(),
    ensures
        final(out)@ == old(out)@ + capture_rule(theme@, prefix@, name@),
{
    match theme.resolve(name) {
        Some(st) => {
            if st.fg.is_none() && st.bg.is_none() && !st.bold && !st.italic && !st.underline {
                assert(out@ =~= old(out)@ + capture_rule(theme@, prefix@, name@));
            } else {
                let mut rule = to_chars(prefix);
                push_str(&mut rule, ".");
                let cls = tk_class(name);
                push_str(&mut rule, cls.as_str());
                push_str(&mut rule, " {\n");
                let ghost head = rule@;
                push_decls(&mut rule, st);
                push_str(&mut rule, "}\n");
                assert(rule@ =~= capture_rule(theme@, prefix@, name@));
                push_all(out, &rule);
            }
        },
        None => {
            assert(out@ =~= old(out)@ + capture_rule(theme@, prefix@, name@));
        },
    }
}

#[verifier::spinoff_prover]
#[verifier::rlimit(60)]
fn push_decls(out: &mut Vec<char>, st: &crate::markdown::syntax_theme::ThemeStyle)
    ensures
        final(out)@ == old(out)@ + style_decls(st@),
{
    let ghost start = out@;
    push_opt_decl(out, "  color: ", &st.fg);
    push_opt_decl(out, "  background-color: ", &st.bg);
    push_flag_decl(out, st.bold, "  font-weight: 600;\n");
    push_flag_decl(out, st.italic, "  font-style: italic;\n");
    push_flag_decl(out, st.underline, "  text-decoration: underline;\n");
    assert(out@ =~= start + style_decls(st@));
}

/// Appends the rules of one theme.
fn push_theme_rules(out: &mut Vec<char>, theme: &SyntaxTheme, prefix: &str)
    requires
        theme.wf(),
    ensures
        final(out)@ == old(out)@ + theme_rules(theme@, prefix@, spec_capture_names()),
{
    let ghost nd = spec_capture_names();
    let ghost start = out@;
    let mut i: usize = 0;
    assert(nd.take(0) =~= Seq::<Seq<char>>::empty());
    while i < CAPTURE_COUNT
        invariant
            i <= CAPTURE_COUNT,
            theme.wf(),
            nd == spec_capture_names(),
            out@ == start + theme_rules(theme@, prefix@, nd.take(ix(i))),
        decreases CAPTURE_COUNT - i,
    {
        let name = capture_name(i);
        let ghost mid = out@;
        push_capture_rule(out, theme, prefix, name);
        proof {
            assert(nd.take(ix(i) + 1).drop_last() =~= nd.take(ix(i)));
            assert(nd.take(ix(i) + 1).last() == name@);
        }
        i += 1;
    }
    assert(nd.take(ix(i)) =~= nd);
}

/// The dual-theme stylesheet: light rules unscoped, dark rules under
/// `html.dark`, all inside `@layer syntax`; each capture name resolves
/// through the theme's longest prefix, and names a theme leaves
/// unstyled get no rule.
pub fn syntax_css(light: &SyntaxTheme, dark: &SyntaxTheme) -> (r: String)
    requires
        light.wf(),
        dark.wf(),
    ensures
        r@ == spec_syntax_css(light@, dark@),
{
    let mut out = to_chars("@layer syntax {\n");
    push_theme_rules(&mut out, light, "");
    push_theme_rules(&mut out, dark, "html.dark ");
    push_str(&mut out, ANSI_CSS);
    push_str(&mut out, "}\n");
    proof {
        reveal_strlit("");
    }
    assert(""@ =~= Seq::<char>::empty());
    assert(out@ =~= spec_syntax_css(light@, dark@));
    from_chars(&out)
}


// ── laws ───────────────────────────────────────────────────────────────

/// SGR code 0 resets every attribute and the colour.
pub proof fn law_sgr_zero_resets(st: SgrState)
    ensures
        apply_codes(st, seq![0int], 0) == plain_state(),
{
    reveal_with_fuel(apply_codes, 2);
}

proof fn lemma_plain_run(text: Seq<char>, i: int, st: SgrState, plain: Seq<char>, out: Seq<(Seq<char>, Seq<char>)>)
    requires
        0 <= i <= text.len(),
        forall|k: int| 0 <= k < text.len() ==> #[trigger] text[k] != '\x1b',
    ensures
        sgr_run(text, i, st, plain, out) == (
            st,
            if plain.len() + text.len() - i > 0 {
                out.push((classes_of(st), plain + text.skip(i)))
            } else {
                out
            },
        ),
    decreases text.len() - i,
{
    if i < text.len() {
        lemma_plain_run(text, i + 1, st, plain.push(text[i]), out);
        assert(plain.push(text[i]) + text.skip(i + 1) =~= plain + text.skip(i));
    } else {
        assert(plain + text.skip(i) =~= plain);
    }
}

/// Text without escape characters is one segment in the current style
/// (none when empty), and the state stays as it was.
pub proof fn law_plain_text_is_one_segment(text: Seq<char>, st: SgrState)
    requires
        forall|k: int| 0 <= k < text.len() ==> #[trigger] text[k] != '\x1b',
    ensures
        sgr_run(text, 0, st, Seq::empty(), Seq::empty()) == (
            st,
            if text.len() > 0 {
                seq![(classes_of(st), text)]
            } else {
                Seq::empty()
            },
        ),
{
    lemma_plain_run(text, 0, st, Seq::empty(), Seq::empty());
    assert(Seq::<char>::empty() + text.skip(0) =~= text);
    assert(Seq::<(Seq<char>, Seq<char>)>::empty().push((classes_of(st), text)) =~= seq![(classes_of(st), text)]);
}

/// A capture class is a valid dotless CSS class: `tk-` and no `.`.
pub proof fn law_tk_class_has_no_dots(capture: Seq<char>)
    ensures
        crate::text::starts_with(spec_tk_class(capture), "tk-"@),
        forall|i: int| 0 <= i < spec_tk_class(capture).len() ==> #[trigger] spec_tk_class(capture)[i] != '.',
{
    reveal_strlit("tk-");
    let c = spec_tk_class(capture);
    assert(c.subrange(0, 3) =~= "tk-"@);
    assert forall|i: int| 0 <= i < c.len() implies #[trigger] c[i] != '.' by {
        if i >= 3 {
            assert(c[i] == dots_to_dashes(normalized_capture(capture))[i - 3]);
        }
    }
}


// ── the code block ─────────────────────────────────────────────────────

/// Per-site renderer options (from `[markdown]` in the site config).
#[derive(Debug, Clone, Copy)]
pub struct RendererOptions {
    /// Hover copy button on code blocks.
    pub copy_button: bool,
    /// Number lines by default (per-fence `ln=` overrides).
    pub line_numbers: bool,
}

impl Default for RendererOptions {
    fn default() -> (r: RendererOptions)
        ensures
            r.copy_button && !r.line_numbers,
    {
        RendererOptions { copy_button: true, line_numbers: false }
    }
}

/// Renders every `gdcode` fence.
#[derive(Debug, Clone, Copy)]
pub struct GdCodeRenderer {
    pub options: RendererOptions,
}

impl Default for GdCodeRenderer {
    fn default() -> (r: GdCodeRenderer)
        ensures
            r.options.copy_button && !r.options.line_numbers,
    {
        GdCodeRenderer { options: RendererOptions::default() }
    }
}

/// The copy button markup of a code block.
pub const COPY_BUTTON: &'static str = "<button class=\"vp-copy-button\" type=\"button\" aria-label=\"Copy code\" onclick=\"gdCopyCode(this)\"><svg class=\"icon-copy\" viewBox=\"0 0 24 24\" fill=\"none\" stroke=\"currentColor\" stroke-linecap=\"round\" stroke-linejoin=\"round\" stroke-width=\"2\" aria-hidden=\"true\"><rect width=\"8\" height=\"4\" x=\"8\" y=\"2\" rx=\"1\" ry=\"1\"/><path d=\"M16 4h2a2 2 0 0 1 2 2v14a2 2 0 0 1-2 2H6a2 2 0 0 1-2-2V6a2 2 0 0 1 2-2h2\"/></svg><svg class=\"icon-copied\" viewBox=\"0 0 24 24\" fill=\"none\" stroke=\"currentColor\" stroke-linecap=\"round\" stroke-linejoin=\"round\" stroke-width=\"2\" aria-hidden=\"true\"><rect width=\"8\" height=\"4\" x=\"8\" y=\"2\" rx=\"1\" ry=\"1\"/><path d=\"M16 4h2a2 2 0 0 1 2 2v14a2 2 0 0 1-2 2H6a2 2 0 0 1-2-2V6a2 2 0 0 1 2-2h2\"/><path d=\"m9 14l2 2l4-4\"/></svg></button>";

/// Attribute escaping: text escaping plus `'`.
pub open spec fn escape_attr_char(c: char) -> Seq<char> {
    if c == '\'' {
        "&#39;"@
    } else {
        crate::markdown::preprocess::escape_char(c)
    }
}

pub open spec fn escape_attr_seq(s: Seq<char>) -> Seq<char>
    decreases s.len(),
{
    if s.len() == 0 {
        Seq::empty()
    } else {
        escape_attr_seq(s.drop_last()) + escape_attr_char(s.last())
    }
}

#[verifier::spinoff_prover]
#[verifier::rlimit(80)]
fn push_escaped_attr(out: &mut Vec<char>, s: &Vec<char>)
    ensures
        final(out)@ == old(out)@ + escape_attr_seq(s@),
{
    let ghost start = out@;
    let mut i: usize = 0;
    assert(s@.take(0) =~= Seq::<char>::empty());
    while i < s.len()
        invariant
            i <= s.len(),
            out@ == start + escape_attr_seq(s@.take(ix(i))),
        decreases s.len() - i,
    {
        let c = s[i];
        assert(s@.take(ix(i) + 1).drop_last() =~= s@.take(ix(i)));
        assert(s@.take(ix(i) + 1).last() == c);
        if c == '\'' {
            push_str(out, "&#39;");
        } else {
            let one = vec![c];
            let ghost before = out@;
            push_escaped(out, &one);
            proof {
                assert(one@ =~= seq![c]);
                assert(escape_seq(seq![c]) =~= escape_seq(Seq::<char>::empty()) + crate::markdown::preprocess::escape_char(c)) by {
                    assert(seq![c].drop_last() =~= Seq::<char>::empty());
                }
                assert(escape_seq(Seq::<char>::empty()) =~= Seq::<char>::empty());
            }
        }
        i += 1;
    }
    assert(s@.take(ix(i)) =~= s@);
}

/// The decimal digits of a number.
pub open spec fn dec(n: nat) -> Seq<char>
    decreases n,
{
    if n < 10 {
        seq![digit_char(n)]
    } else {
        dec(n / 10).push(digit_char(n % 10))
    }
}

pub open spec fn digit_char(d: nat) -> char {
    if d == 0 { '0' } else if d == 1 { '1' } else if d == 2 { '2' } else if d == 3 { '3' } else if d == 4 { '4' } else if d == 5 { '5' } else if d == 6 { '6' } else if d == 7 { '7' } else if d == 8 { '8' } else { '9' }
}

pub fn digit_char_v(d: usize) -> (c: char)
    requires
        d < 10,
    ensures
        c == digit_char(d as nat),
{
    if d == 0 { '0' } else if d == 1 { '1' } else if d == 2 { '2' } else if d == 3 { '3' } else if d == 4 { '4' } else if d == 5 { '5' } else if d == 6 { '6' } else if d == 7 { '7' } else if d == 8 { '8' } else { '9' }
}

pub fn push_dec(out: &mut Vec<char>, n: usize)
    ensures
        final(out)@ == old(out)@ + dec(n as nat),
    decreases n,
{
    if n < 10 {
        out.push(digit_char_v(n));
    } else {
        push_dec(out, n / 10);
        out.push(digit_char_v(n % 10));
    }
}

/// The classes a notation kind gives its line.
pub open spec fn notation_class(kind: Seq<char>) -> Seq<char> {
    if kind == "highlight"@ || kind == "hl"@ {
        "hl"@
    } else if kind == "focus"@ {
        "focus"@
    } else if kind == "++"@ {
        "diff add"@
    } else if kind == "--"@ {
        "diff remove"@
    } else if kind == "warning"@ {
        "warning"@
    } else {
        "error"@
    }
}

/// ` c` for every notation class but `hl`, in order.
pub open spec fn notes_suffix(notes: Seq<Seq<char>>) -> Seq<char>
    decreases notes.len(),
{
    if notes.len() == 0 {
        Seq::empty()
    } else if notes.last() == "hl"@ {
        notes_suffix(notes.drop_last())
    } else {
        notes_suffix(notes.drop_last()) + " "@ + notes.last()
    }
}

/// The class list of rendered line `number` (1-based): `line`, ` hl`
/// when the fence or a notation highlights it, then the other notation
/// classes.
pub open spec fn spec_line_class(number: nat, hl: Seq<usize>, notes: Seq<Seq<char>>) -> Seq<char> {
    "line"@ + (if hl.contains(number as usize) || notes.contains("hl"@) {
        " hl"@
    } else {
        Seq::empty()
    }) + notes_suffix(notes)
}

fn contains_usize(v: &Vec<usize>, x: usize) -> (b: bool)
    ensures
        b == v@.contains(x),
{
    let mut i: usize = 0;
    while i < v.len()
        invariant
            i <= v.len(),
            forall|k: int| 0 <= k < i ==> v@[k] != x,
        decreases v.len() - i,
    {
        if v[i] == x {
            assert(v@[ix(i)] == x);
            return true;
        }
        i += 1;
    }
    false
}

/// The class list of a rendered line.
#[verifier::spinoff_prover]
#[verifier::rlimit(80)]
pub fn line_class(number: usize, hl: &Vec<usize>, notes: &Vec<String>) -> (r: String)
    ensures
        r@ == spec_line_class(number as nat, hl@, notes.deep_view()),
{
    let ghost nd = notes.deep_view();
    let mut has_hl = contains_usize(hl, number);
    let mut k: usize = 0;
    while k < notes.len()
        invariant
            k <= notes.len(),
            nd == notes.deep_view(),
            has_hl == (hl@.contains(number) || exists|m: int| 0 <= m < k && nd[m] == "hl"@),
        decreases notes.len() - k,
    {
        assert(nd[ix(k)] == notes@[ix(k)]@);
        if eq_str(&to_chars(notes[k].as_str()), "hl") {
            has_hl = true;
        }
        k += 1;
    }
    assert(has_hl == (hl@.contains(number) || nd.contains("hl"@)));
    let mut out = to_chars("line");
    if has_hl {
        push_str(&mut out, " hl");
    }
    let ghost head = out@;
    let mut k: usize = 0;
    assert(nd.take(0) =~= Seq::<Seq<char>>::empty());
    while k < notes.len()
        invariant
            k <= notes.len(),
            nd == notes.deep_view(),
            out@ == head + notes_suffix(nd.take(ix(k))),
        decreases notes.len() - k,
    {
        assert(nd[ix(k)] == notes@[ix(k)]@);
        assert(nd.take(ix(k) + 1).drop_last() =~= nd.take(ix(k)));
        assert(nd.take(ix(k) + 1).last() == nd[ix(k)]);
        if !eq_str(&to_chars(notes[k].as_str()), "hl") {
            push_str(&mut out, " ");
            push_str(&mut out, notes[k].as_str());
        }
        k += 1;
    }
    assert(nd.take(ix(k)) =~= nd);
    proof {
        reveal_strlit("");
    }
    from_chars(&out)
}

/// A line without its `\n` (one, as `strip_suffix`).
pub open spec fn strip_nl(line: Seq<char>) -> Seq<char> {
    if line.len() > 0 && line.last() == '\n' {
        line.drop_last()
    } else {
        line
    }
}

/// One rendered line: a `\n` before all but the first, the classed
/// wrapper around the inner markup.
pub open spec fn line_wrap(idx: int, class: Seq<char>, inner: Seq<char>) -> Seq<char> {
    (if idx > 0 {
        "\n"@
    } else {
        Seq::empty()
    }) + "<span class=\""@ + class + "\">"@ + inner + "</span>"@
}

/// The markup of a line's SGR segments: empty segments vanish, plain
/// ones are escaped text, styled ones a classed span.
pub open spec fn segments_html(segs: Seq<(Seq<char>, Seq<char>)>) -> Seq<char>
    decreases segs.len(),
{
    if segs.len() == 0 {
        Seq::empty()
    } else {
        let (c, t) = segs.last();
        segments_html(segs.drop_last()) + if t.len() == 0 {
            Seq::empty()
        } else if c.len() == 0 {
            escape_seq(t)
        } else {
            "<span class=\""@ + c + "\">"@ + escape_seq(t) + "</span>"@
        }
    }
}

/// The body of a plain (unhighlighted) block from line `k` on.
pub open spec fn plain_lines(lines: Seq<Seq<char>>, notes: Seq<Seq<Seq<char>>>, hl: Seq<usize>, k: int) -> Seq<char>
    decreases lines.len() - k,
{
    if k < 0 || k >= lines.len() {
        Seq::empty()
    } else {
        line_wrap(k, spec_line_class((k + 1) as nat, hl, notes[k]), escape_seq(strip_nl(lines[k]))) + plain_lines(
            lines,
            notes,
            hl,
            k + 1,
        )
    }
}

/// The body of an ANSI block from line `k` on, the SGR state carried
/// from line to line.
pub open spec fn ansi_lines(lines: Seq<Seq<char>>, notes: Seq<Seq<Seq<char>>>, hl: Seq<usize>, k: int, st: SgrState) -> Seq<char>
    decreases lines.len() - k,
{
    if k < 0 || k >= lines.len() {
        Seq::empty()
    } else {
        let (st2, segs) = sgr_run(strip_nl(lines[k]), 0, st, Seq::empty(), Seq::empty());
        line_wrap(k, spec_line_class((k + 1) as nat, hl, notes[k]), segments_html(segs)) + ansi_lines(
            lines,
            notes,
            hl,
            k + 1,
            st2,
        )
    }
}

#[verifier::spinoff_prover]
#[verifier::rlimit(80)]
fn push_segments(out: &mut Vec<char>, segs: &Vec<(String, String)>)
    ensures
        final(out)@ == old(out)@ + segments_html(segs.deep_view()),
{
    let ghost sd = segs.deep_view();
    let ghost start = out@;
    let mut i: usize = 0;
    assert(sd.take(0) =~= Seq::<(Seq<char>, Seq<char>)>::empty());
    while i < segs.len()
        invariant
            i <= segs.len(),
            sd == segs.deep_view(),
            out@ == start + segments_html(sd.take(ix(i))),
        decreases segs.len() - i,
    {
        let (c, t) = &segs[i];
        assert(sd[ix(i)] == (c@, t@));
        assert(sd.take(ix(i) + 1).drop_last() =~= sd.take(ix(i)));
        assert(sd.take(ix(i) + 1).last() == sd[ix(i)]);
        let ghost mid = out@;
        let tv = to_chars(t.as_str());
        let cv = to_chars(c.as_str());
        if tv.len() == 0 {
        } else if cv.len() == 0 {
            push_escaped(out, &tv);
        } else {
            push_str(out, "<span class=\"");
            push_str(out, c.as_str());
            push_str(out, "\">");
            push_escaped(out, &tv);
            push_str(out, "</span>");
        }
        proof {
            reveal_strlit("");
        }
        i += 1;
    }
    assert(sd.take(ix(i)) =~= sd);
}

fn strip_nl_v(line: &str) -> (r: Vec<char>)
    ensures
        r@ == strip_nl(line@),
{
    let v = to_chars(line);
    if v.len() > 0 && v[v.len() - 1] == '\n' {
        let r = slice_of(&v, 0, v.len() - 1);
        assert(r@ =~= v@.drop_last());
        r
    } else {
        v
    }
}

fn push_line_open(out: &mut Vec<char>, idx: usize, class: &String)
    ensures
        final(out)@ == old(out)@ + (if idx > 0 {
            "\n"@
        } else {
            Seq::<char>::empty()
        }) + "<span class=\""@ + class@ + "\">"@,
{
    let ghost start = out@;
    if idx > 0 {
        push_str(out, "\n");
    }
    push_str(out, "<span class=\"");
    push_str(out, class.as_str());
    push_str(out, "\">");
    proof {
        reveal_strlit("");
    }
    assert(out@ =~= start + (if idx > 0 {
        "\n"@
    } else {
        Seq::<char>::empty()
    }) + "<span class=\""@ + class@ + "\">"@);
}

/// The plain body: each line escaped in its classed wrapper.
#[verifier::spinoff_prover]
#[verifier::rlimit(80)]
fn push_plain_lines(out: &mut Vec<char>, lines: &Vec<String>, notes: &Vec<Vec<String>>, hl: &Vec<usize>)
    requires
        notes.len() >= lines.len(),
    ensures
        final(out)@ == old(out)@ + plain_lines(lines.deep_view(), notes.deep_view(), hl@, 0),
{
    let ghost ld = lines.deep_view();
    let ghost nd = notes.deep_view();
    let ghost goal = old(out)@ + plain_lines(ld, nd, hl@, 0);
    let mut i: usize = 0;
    while i < lines.len()
        invariant
            i <= lines.len(),
            notes.len() >= lines.len(),
            ld == lines.deep_view(),
            nd == notes.deep_view(),
            goal == out@ + plain_lines(ld, nd, hl@, ix(i)),
        decreases lines.len() - i,
    {
        assert(nd[ix(i)] == notes@[ix(i)].deep_view());
        assert(ld[ix(i)] == lines@[ix(i)]@);
        let class = line_class(i + 1, hl, &notes[i]);
        let text = strip_nl_v(lines[i].as_str());
        push_line_open(out, i, &class);
        push_escaped(out, &text);
        push_str(out, "</span>");
        i += 1;
    }
    assert(plain_lines(ld, nd, hl@, ix(i)) =~= Seq::<char>::empty());
}

/// The ANSI body: SGR sequences become classed spans.
#[verifier::spinoff_prover]
#[verifier::rlimit(80)]
fn push_ansi_lines(out: &mut Vec<char>, lines: &Vec<String>, notes: &Vec<Vec<String>>, hl: &Vec<usize>)
    requires
        notes.len() >= lines.len(),
    ensures
        final(out)@ == old(out)@ + ansi_lines(lines.deep_view(), notes.deep_view(), hl@, 0, plain_state()),
{
    let ghost ld = lines.deep_view();
    let ghost nd = notes.deep_view();
    let ghost goal = old(out)@ + ansi_lines(ld, nd, hl@, 0, plain_state());
    let mut sgr = SgrState::default();
    let mut i: usize = 0;
    while i < lines.len()
        invariant
            i <= lines.len(),
            notes.len() >= lines.len(),
            ld == lines.deep_view(),
            nd == notes.deep_view(),
            goal == out@ + ansi_lines(ld, nd, hl@, ix(i), sgr),
        decreases lines.len() - i,
    {
        assert(nd[ix(i)] == notes@[ix(i)].deep_view());
        assert(ld[ix(i)] == lines@[ix(i)]@);
        let class = line_class(i + 1, hl, &notes[i]);
        let text = strip_nl_v(lines[i].as_str());
        let ts = from_chars(&text);
        push_line_open(out, i, &class);
        let segs = sgr.segments(ts.as_str());
        push_segments(out, &segs);
        push_str(out, "</span>");
        i += 1;
    }
    assert(ansi_lines(ld, nd, hl@, ix(i), sgr) =~= Seq::<char>::empty());
}


/// All lines one after the other.
pub open spec fn concat_lines(lines: Seq<Seq<char>>) -> Seq<char>
    decreases lines.len(),
{
    if lines.len() == 0 {
        Seq::empty()
    } else {
        concat_lines(lines.drop_last()) + lines.last()
    }
}

/// Positions from `j` on that start a line after a `\n` (the last
/// newline starts none).
pub open spec fn line_starts_from(text: Seq<char>, j: int) -> Seq<int>
    decreases text.len() - j,
{
    if j < 1 || j >= text.len() {
        Seq::empty()
    } else if text[j - 1] == '\n' {
        seq![j] + line_starts_from(text, j + 1)
    } else {
        line_starts_from(text, j + 1)
    }
}

/// Where each rendered line starts.
pub open spec fn line_starts(text: Seq<char>) -> Seq<int> {
    seq![0int] + line_starts_from(text, 1)
}

/// Where rendered line `idx` ends (its newline excluded).
pub open spec fn row_end(text: Seq<char>, starts: Seq<int>, idx: int) -> int {
    let next = if idx + 1 < starts.len() {
        starts[idx + 1]
    } else {
        text.len() as int
    };
    if next > starts[idx] && text[next - 1] == '\n' {
        next - 1
    } else {
        next
    }
}

/// A highlighted segment as plain values: (start, end, capture).
pub type SegView = (usize, usize, Option<Seq<char>>);

/// Segments in order, not overlapping, inside the text.
pub open spec fn segments_ordered(segs: Seq<SegView>, len: nat) -> bool {
    &&& forall|k: int| 0 <= k < segs.len() ==> (#[trigger] segs[k]).0 <= segs[k].1 <= len
    &&& forall|a: int, b: int| 0 <= a < b < segs.len() ==> (#[trigger] segs[a]).1 <= (#[trigger] segs[b]).0
}

pub open spec fn imax(a: int, b: int) -> int {
    if a >= b {
        a
    } else {
        b
    }
}

pub open spec fn imin(a: int, b: int) -> int {
    if a <= b {
        a
    } else {
        b
    }
}

/// The markup of line `[start, end)` from segment `k` on, text written
/// up to `pos`: each segment clipped to the line; captured text in a
/// capture-classed span, the rest escaped as is.
pub open spec fn clip_from(text: Seq<char>, segs: Seq<SegView>, k: int, start: int, end: int, pos: int) -> Seq<char>
    decreases segs.len() - k,
{
    if k < 0 || k >= segs.len() {
        if pos < end {
            escape_seq(text.subrange(pos, end))
        } else {
            Seq::empty()
        }
    } else {
        let ss = imax(segs[k].0 as int, start);
        let se = imin(segs[k].1 as int, end);
        if se <= ss {
            clip_from(text, segs, k + 1, start, end, pos)
        } else {
            let pre = if ss > pos {
                escape_seq(text.subrange(pos, ss))
            } else {
                Seq::empty()
            };
            let p = imax(pos, ss);
            let piece = match segs[k].2 {
                Some(c) => "<span class=\""@ + spec_tk_class(c) + "\">"@ + escape_seq(text.subrange(p, se))
                    + "</span>"@,
                None => escape_seq(text.subrange(p, se)),
            };
            pre + piece + clip_from(text, segs, k + 1, start, end, se)
        }
    }
}

/// The highlighted body from rendered line `idx` on.
pub open spec fn highlighted_lines(
    text: Seq<char>,
    segs: Seq<SegView>,
    notes: Seq<Seq<Seq<char>>>,
    hl: Seq<usize>,
    idx: int,
) -> Seq<char>
    decreases line_starts(text).len() - idx,
{
    let starts = line_starts(text);
    if idx < 0 || idx >= starts.len() {
        Seq::empty()
    } else {
        line_wrap(
            idx,
            spec_line_class((idx + 1) as nat, hl, notes[idx]),
            clip_from(text, segs, 0, starts[idx], row_end(text, starts, idx), starts[idx]),
        ) + highlighted_lines(text, segs, notes, hl, idx + 1)
    }
}

proof fn lemma_line_starts_from(text: Seq<char>, j: int)
    requires
        1 <= j,
    ensures
        forall|k: int| 0 <= k < line_starts_from(text, j).len() ==> j <= #[trigger] line_starts_from(text, j)[k]
            < text.len(),
    decreases text.len() - j,
{
    if j < text.len() {
        lemma_line_starts_from(text, j + 1);
        let r = line_starts_from(text, j);
        let q = line_starts_from(text, j + 1);
        if text[j - 1] == '\n' {
            assert forall|k: int| 0 <= k < r.len() implies j <= #[trigger] r[k] < text.len() by {
                if k > 0 {
                    assert(r[k] == q[k - 1]);
                }
            }
        }
    }
}


fn concat_v(lines: &Vec<String>) -> (r: Vec<char>)
    ensures
        r@ == concat_lines(lines.deep_view()),
{
    let ghost ld = lines.deep_view();
    let mut out: Vec<char> = Vec::new();
    let mut i: usize = 0;
    assert(ld.take(0) =~= Seq::<Seq<char>>::empty());
    while i < lines.len()
        invariant
            i <= lines.len(),
            ld == lines.deep_view(),
            out@ == concat_lines(ld.take(ix(i))),
        decreases lines.len() - i,
    {
        assert(ld[ix(i)] == lines@[ix(i)]@);
        assert(ld.take(ix(i) + 1).drop_last() =~= ld.take(ix(i)));
        let v = to_chars(lines[i].as_str());
        push_all(&mut out, &v);
        i += 1;
    }
    assert(ld.take(ix(i)) =~= ld);
    out
}

fn line_starts_v(text: &Vec<char>) -> (r: Vec<usize>)
    ensures
        r.len() == line_starts(text@).len(),
        forall|k: int| 0 <= k < r.len() ==> r@[k] as int == #[trigger] line_starts(text@)[k],
{
    let mut r: Vec<usize> = vec![0];
    let mut j: usize = 1;
    let ghost goal = line_starts(text@);
    proof {
        lemma_line_starts_from(text@, 1);
    }
    while j < text.len()
        invariant
            1 <= j,
            goal == line_starts(text@),
            r@.map_values(|x: usize| x as int) + line_starts_from(text@, ix(j)) == goal,
        decreases text.len() - j,
    {
        let ghost before = r@;
        if text[j - 1] == '\n' {
            r.push(j);
            assert(r@.map_values(|x: usize| x as int) =~= before.map_values(|x: usize| x as int).push(ix(j)));
            assert(r@.map_values(|x: usize| x as int) + line_starts_from(text@, ix(j) + 1) =~= before.map_values(
                |x: usize| x as int,
            ) + line_starts_from(text@, ix(j)));
        }
        j += 1;
    }
    assert(line_starts_from(text@, ix(j)) =~= Seq::<int>::empty());
    assert(r@.map_values(|x: usize| x as int) =~= goal);
    assert forall|k: int| 0 <= k < r.len() implies r@[k] as int == #[trigger] line_starts(text@)[k] by {
        assert(r@.map_values(|x: usize| x as int)[k] == r@[k] as int);
    }
    r
}

/// The markup one clipped segment `[ss, se)` adds after text written up
/// to `pos`.
pub open spec fn clip_piece(text: Seq<char>, cap: Option<Seq<char>>, ss: int, se: int, pos: int) -> Seq<char> {
    let pre = if ss > pos {
        escape_seq(text.subrange(pos, ss))
    } else {
        Seq::empty()
    };
    let p = imax(pos, ss);
    pre + match cap {
        Some(c) => "<span class=\""@ + spec_tk_class(c) + "\">"@ + escape_seq(text.subrange(p, se)) + "</span>"@,
        None => escape_seq(text.subrange(p, se)),
    }
}

fn push_piece(out: &mut Vec<char>, text: &Vec<char>, cap: &Option<String>, ss: usize, se: usize, pos: usize)
    requires
        pos <= ss < se <= text.len(),
    ensures
        final(out)@ == old(out)@ + clip_piece(text@, cap.deep_view(), ss as int, se as int, pos as int),
{
    let ghost start = out@;
    if ss > pos {
        let pre = slice_of(text, pos, ss);
        push_escaped(out, &pre);
    }
    let body = slice_of(text, ss, se);
    match cap {
        Some(c) => {
            push_str(out, "<span class=\"");
            let cls = tk_class(c.as_str());
            push_str(out, cls.as_str());
            push_str(out, "\">");
            push_escaped(out, &body);
            push_str(out, "</span>");
        },
        None => {
            push_escaped(out, &body);
        },
    }
    proof {
        reveal_strlit("");
    }
    assert(out@ =~= start + clip_piece(text@, cap.deep_view(), ss as int, se as int, pos as int));
}

proof fn lemma_clip_step(text: Seq<char>, segs: Seq<SegView>, k: int, start: int, end: int, pos: int)
    requires
        0 <= k < segs.len(),
    ensures
        ({
            let ss = imax(segs[k].0 as int, start);
            let se = imin(segs[k].1 as int, end);
            clip_from(text, segs, k, start, end, pos) == if se <= ss {
                clip_from(text, segs, k + 1, start, end, pos)
            } else {
                clip_piece(text, segs[k].2, ss, se, pos) + clip_from(text, segs, k + 1, start, end, se)
            }
        }),
{
    let ss = imax(segs[k].0 as int, start);
    let se = imin(segs[k].1 as int, end);
    if se > ss {
        let pre = if ss > pos {
            escape_seq(text.subrange(pos, ss))
        } else {
            Seq::empty()
        };
        let p = imax(pos, ss);
        let piece = match segs[k].2 {
            Some(c) => "<span class=\""@ + spec_tk_class(c) + "\">"@ + escape_seq(text.subrange(p, se))
                + "</span>"@,
            None => escape_seq(text.subrange(p, se)),
        };
        assert(pre + piece + clip_from(text, segs, k + 1, start, end, se) =~= clip_piece(text, segs[k].2, ss, se, pos)
            + clip_from(text, segs, k + 1, start, end, se));
    }
}

/// Appends the markup of line `[start, end)` clipped from the segments.
fn push_clip(out: &mut Vec<char>, text: &Vec<char>, segs: &Vec<(usize, usize, Option<String>)>, start: usize, end: usize)
    requires
        start <= text.len(),
        end <= text.len(),
        segments_ordered(segs.deep_view(), text@.len()),
    ensures
        final(out)@ == old(out)@ + clip_from(text@, segs.deep_view(), 0, start as int, end as int, start as int),
{
    let ghost sd = segs.deep_view();
    let ghost goal = old(out)@ + clip_from(text@, sd, 0, start as int, end as int, start as int);
    let mut pos: usize = start;
    let mut k: usize = 0;
    while k < segs.len()
        invariant
            k <= segs.len(),
            sd == segs.deep_view(),
            start <= pos <= text.len(),
            end <= text.len(),
            segments_ordered(sd, text@.len()),
            k < segs.len() ==> pos <= imax(sd[ix(k)].0 as int, start as int),
            goal == out@ + clip_from(text@, sd, ix(k), start as int, end as int, pos as int),
        decreases segs.len() - k,
    {
        let (s, e, cap) = &segs[k];
        assert(sd[ix(k)] == (*s, *e, cap.deep_view()));
        proof {
            lemma_clip_step(text@, sd, ix(k), start as int, end as int, pos as int);
        }
        let ss: usize = if *s >= start {
            *s
        } else {
            start
        };
        let se: usize = if *e <= end {
            *e
        } else {
            end
        };
        if se > ss {
            push_piece(out, text, cap, ss, se, pos);
            pos = se;
        }
        proof {
            if k + 1 < segs.len() {
                assert(sd[ix(k)].1 <= sd[ix(k) + 1].0);
            }
        }
        k += 1;
    }
    if pos < end {
        let tail = slice_of(text, pos, end);
        push_escaped(out, &tail);
    }
    proof {
        reveal_strlit("");
    }
}

/// The highlighted body: lines of the notation-free text, each composed
/// from the segments clipped to it.
#[verifier::spinoff_prover]
#[verifier::rlimit(100)]
fn push_highlighted_lines(
    out: &mut Vec<char>,
    lines: &Vec<String>,
    notes: &Vec<Vec<String>>,
    hl: &Vec<usize>,
    segs: &Vec<(usize, usize, Option<String>)>,
)
    requires
        notes.len() >= line_starts(concat_lines(lines.deep_view())).len(),
        segments_ordered(segs.deep_view(), concat_lines(lines.deep_view()).len()),
    ensures
        final(out)@ == old(out)@ + highlighted_lines(
            concat_lines(lines.deep_view()),
            segs.deep_view(),
            notes.deep_view(),
            hl@,
            0,
        ),
{
    let text = concat_v(lines);
    let starts = line_starts_v(&text);
    let ghost nd = notes.deep_view();
    let ghost sd = segs.deep_view();
    let ghost ls = line_starts(text@);
    let ghost goal = old(out)@ + highlighted_lines(text@, sd, nd, hl@, 0);
    proof {
        lemma_line_starts_from(text@, 1);
    }
    let mut idx: usize = 0;
    while idx < starts.len()
        invariant
            idx <= starts.len(),
            starts.len() == ls.len(),
            ls == line_starts(text@),
            forall|k: int| 0 <= k < starts.len() ==> starts@[k] as int == #[trigger] ls[k],
            forall|k: int| 0 <= k < line_starts_from(text@, 1).len() ==> 1 <= #[trigger] line_starts_from(text@, 1)[k]
                < text@.len(),
            notes.len() >= ls.len(),
            nd == notes.deep_view(),
            sd == segs.deep_view(),
            segments_ordered(sd, text@.len()),
            goal == out@ + highlighted_lines(text@, sd, nd, hl@, ix(idx)),
        decreases starts.len() - idx,
    {
        let start = starts[idx];
        let next: usize = if idx + 1 < starts.len() {
            starts[idx + 1]
        } else {
            text.len()
        };
        proof {
            assert(ls[ix(idx)] == start);
            if idx > 0 {
                assert(ls[ix(idx)] == line_starts_from(text@, 1)[ix(idx) - 1]);
            }
            if idx + 1 < starts.len() {
                assert(ls[ix(idx) + 1] == line_starts_from(text@, 1)[ix(idx)]);
                assert(next == ls[ix(idx) + 1]);
            }
        }
        let end: usize = if next > start && text[next - 1] == '\n' {
            next - 1
        } else {
            next
        };
        assert(end == row_end(text@, ls, ix(idx)));
        assert(nd[ix(idx)] == notes@[ix(idx)].deep_view());
        let class = line_class(idx + 1, hl, &notes[idx]);
        push_line_open(out, idx, &class);
        push_clip(out, &text, segs, start, end);
        push_str(out, "</span>");
        idx += 1;
    }
    assert(highlighted_lines(text@, sd, nd, hl@, ix(idx)) =~= Seq::<char>::empty());
}


/// `str::eq_ignore_ascii_case` against `ansi`.
pub open spec fn is_ansi_lang(lang: Seq<char>) -> bool {
    lang.len() == 4 && forall|i: int| 0 <= i < 4 ==> crate::text::ascii_lower_char(#[trigger] lang[i]) == "ansi"@[i]
}

fn is_ansi_lang_v(lang: &Vec<char>) -> (b: bool)
    ensures
        b == is_ansi_lang(lang@),
{
    proof {
        reveal_strlit("ansi");
    }
    if lang.len() != 4 {
        return false;
    }
    let want = to_chars("ansi");
    assert(want.len() == 4);
    let mut i: usize = 0;
    while i < 4
        invariant
            i <= 4,
            lang.len() == 4,
            want@ == "ansi"@,
            want.len() == 4,
            forall|k: int| 0 <= k < i ==> crate::text::ascii_lower_char(#[trigger] lang@[k]) == "ansi"@[k],
        decreases 4 - i,
    {
        let c = lang[i];
        let l = if 'A' <= c && c <= 'Z' {
            ((c as u32) + 32) as u8 as char
        } else {
            c
        };
        assert(l == crate::text::ascii_lower_char(c)) by {
            if 'A' <= c && c <= 'Z' {
                assert((c as u32) + 32 < 128);
            }
        }
        if l != want[i] {
            return false;
        }
        i += 1;
    }
    true
}

/// Some line carries the `focus` notation.
pub open spec fn any_focus(notes: Seq<Seq<Seq<char>>>) -> bool {
    exists|i: int| 0 <= i < notes.len() && notes[i].contains("focus"@)
}

/// Whether line numbers show, and from which number.
pub open spec fn numbering(spec_ln: Option<LineNumbers>, default_on: bool) -> (bool, Option<usize>) {
    match spec_ln {
        Some(LineNumbers::On) => (true, None),
        Some(LineNumbers::Off) => (false, None),
        Some(LineNumbers::From(n)) => (true, Some(n)),
        None => (default_on, None),
    }
}

/// The body lines of a block: ANSI, tree-sitter segments, or plain.
pub open spec fn block_body(
    lang: Seq<char>,
    lines: Seq<Seq<char>>,
    notes: Seq<Seq<Seq<char>>>,
    hl: Seq<usize>,
    segs: Option<Seq<SegView>>,
) -> Seq<char> {
    if is_ansi_lang(lang) {
        ansi_lines(lines, notes, hl, 0, plain_state())
    } else {
        match segs {
            Some(sg) => highlighted_lines(concat_lines(lines), sg, notes, hl, 0),
            None => plain_lines(lines, notes, hl, 0),
        }
    }
}

/// The title card of a labeled fence outside a code group.
pub open spec fn block_head(spec: FenceSpec) -> Seq<char> {
    match spec.label.deep_view() {
        Some(title) => if !spec.group {
            "<div class=\"vp-code-block-title\"><div class=\"vp-code-block-title-bar\"><span class=\"vp-code-block-title-text\" data-title=\""@
                + escape_attr_seq(title) + "\">"@ + escape_seq(title) + "</span></div>"@
        } else {
            Seq::empty()
        },
        None => Seq::empty(),
    }
}

/// The `<pre>` opening tag: language, focus and numbering classes, and
/// the counter offset of a numbering that starts past 1.
pub open spec fn pre_open(opts: RendererOptions, spec: FenceSpec, notes: Seq<Seq<Seq<char>>>) -> Seq<char> {
    let (show_ln, ln_start) = numbering(spec.ln, opts.line_numbers);
    let pre_class = "language-"@ + escape_attr_seq(spec.lang@) + (if any_focus(notes) {
        " has-focus"@
    } else {
        Seq::empty()
    }) + (if show_ln {
        " line-numbers"@
    } else {
        Seq::empty()
    });
    let style = match ln_start {
        Some(n) => if show_ln && n > 1 {
            " style=\"counter-reset: gdln "@ + dec((n - 1) as nat) + ";\""@
        } else {
            Seq::empty()
        },
        None => Seq::empty(),
    };
    "<pre class=\""@ + pre_class + "\""@ + style + ">"@
}

/// The copy button, the corner label (the group label or the language;
/// empty on a titled block) and the `<code>` opening tag.
pub open spec fn code_open(opts: RendererOptions, spec: FenceSpec) -> Seq<char> {
    let lang = spec.lang@;
    let label = spec.label.deep_view();
    let titled = label is Some && !spec.group;
    let corner = if titled {
        Seq::empty()
    } else {
        match label {
            Some(l) => l,
            None => lang,
        }
    };
    let name_attr = match label {
        Some(l) => " data-name=\""@ + escape_attr_seq(l) + "\""@,
        None => Seq::empty(),
    };
    (if opts.copy_button {
        COPY_BUTTON@
    } else {
        Seq::empty()
    }) + "<span class=\"lang\">"@ + escape_seq(corner) + "</span>"@ + "<code class=\"language-"@
        + escape_attr_seq(lang) + "\" data-lang=\""@ + escape_attr_seq(lang) + "\""@ + name_attr + ">"@
}

/// The closing tags.
pub open spec fn block_close(spec: FenceSpec) -> Seq<char> {
    "</code></pre>"@ + (if spec.label is Some && !spec.group {
        "</div>"@
    } else {
        Seq::empty()
    })
}

/// The whole block.
pub open spec fn spec_render_block(
    opts: RendererOptions,
    spec: FenceSpec,
    lines: Seq<Seq<char>>,
    notes: Seq<Seq<Seq<char>>>,
    segs: Option<Seq<SegView>>,
) -> Seq<char> {
    block_head(spec) + pre_open(opts, spec, notes) + code_open(opts, spec) + block_body(
        spec.lang@,
        lines,
        notes,
        spec.hl@,
        segs,
    ) + block_close(spec)
}

fn push_block_head(out: &mut Vec<char>, spec: &FenceSpec)
    ensures
        final(out)@ == old(out)@ + block_head(*spec),
{
    let ghost start = out@;
    match &spec.label {
        Some(l) => {
            if !spec.group {
                let title = to_chars(l.as_str());
                push_str(out, "<div class=\"vp-code-block-title\"><div class=\"vp-code-block-title-bar\"><span class=\"vp-code-block-title-text\" data-title=\"");
                push_escaped_attr(out, &title);
                push_str(out, "\">");
                push_escaped(out, &title);
                push_str(out, "</span></div>");
            }
        },
        None => {},
    }
    proof {
        reveal_strlit("");
    }
    assert(out@ =~= start + block_head(*spec));
}

#[verifier::spinoff_prover]
#[verifier::rlimit(100)]
fn push_pre_open(out: &mut Vec<char>, opts: RendererOptions, spec: &FenceSpec, notes: &Vec<Vec<String>>)
    ensures
        final(out)@ == old(out)@ + pre_open(opts, *spec, notes.deep_view()),
{
    let ghost start = out@;
    let lang = to_chars(spec.lang.as_str());
    let (show_ln, ln_start): (bool, Option<usize>) = match spec.ln {
        Some(LineNumbers::On) => (true, None),
        Some(LineNumbers::Off) => (false, None),
        Some(LineNumbers::From(n)) => (true, Some(n)),
        None => (opts.line_numbers, None),
    };
    push_str(out, "<pre class=\"");
    push_str(out, "language-");
    push_escaped_attr(out, &lang);
    if any_focus_v(notes) {
        push_str(out, " has-focus");
    }
    if show_ln {
        push_str(out, " line-numbers");
    }
    push_str(out, "\"");
    match ln_start {
        Some(n) => {
            if show_ln && n > 1 {
                push_str(out, " style=\"counter-reset: gdln ");
                push_dec(out, n - 1);
                push_str(out, ";\"");
            }
        },
        None => {},
    }
    push_str(out, ">");
    proof {
        reveal_strlit("");
    }
    assert(out@ =~= start + pre_open(opts, *spec, notes.deep_view()));
}

#[verifier::spinoff_prover]
#[verifier::rlimit(100)]
fn push_code_open(out: &mut Vec<char>, opts: RendererOptions, spec: &FenceSpec)
    ensures
        final(out)@ == old(out)@ + code_open(opts, *spec),
{
    let ghost start = out@;
    let lang = to_chars(spec.lang.as_str());
    let titled = spec.label.is_some() && !spec.group;
    if opts.copy_button {
        push_str(out, COPY_BUTTON);
    }
    let corner: Vec<char> = if titled {
        Vec::new()
    } else {
        match &spec.label {
            Some(l) => to_chars(l.as_str()),
            None => lang.clone(),
        }
    };
    push_str(out, "<span class=\"lang\">");
    push_escaped(out, &corner);
    push_str(out, "</span>");
    push_str(out, "<code class=\"language-");
    push_escaped_attr(out, &lang);
    push_str(out, "\" data-lang=\"");
    push_escaped_attr(out, &lang);
    push_str(out, "\"");
    match &spec.label {
        Some(l) => {
            push_str(out, " data-name=\"");
            push_escaped_attr(out, &to_chars(l.as_str()));
            push_str(out, "\"");
        },
        None => {},
    }
    push_str(out, ">");
    proof {
        reveal_strlit("");
        assert(escape_seq(Seq::<char>::empty()) =~= Seq::<char>::empty());
    }
    assert(out@ =~= start + code_open(opts, *spec));
}

/// How many lines the highlighted body renders: one per line start of
/// the notation-free text.
pub fn rendered_line_count(lines: &Vec<String>) -> (n: usize)
    ensures
        n == line_starts(concat_lines(lines.deep_view())).len(),
{
    let text = concat_v(lines);
    let starts = line_starts_v(&text);
    starts.len()
}

fn any_focus_v(notes: &Vec<Vec<String>>) -> (b: bool)
    ensures
        b == any_focus(notes.deep_view()),
{
    let ghost nd = notes.deep_view();
    let mut i: usize = 0;
    while i < notes.len()
        invariant
            i <= notes.len(),
            nd == notes.deep_view(),
            forall|m: int| 0 <= m < i ==> !nd[m].contains("focus"@),
        decreases notes.len() - i,
    {
        let row = &notes[i];
        let ghost rd = row.deep_view();
        assert(nd[ix(i)] == rd);
        let mut k: usize = 0;
        while k < row.len()
            invariant
                k <= row.len(),
                i < notes.len(),
                nd == notes.deep_view(),
                rd == row.deep_view(),
                nd[ix(i)] == rd,
                forall|m: int| 0 <= m < k ==> rd[m] != "focus"@,
            decreases row.len() - k,
        {
            assert(rd[ix(k)] == row@[ix(k)]@);
            if eq_str(&to_chars(row[k].as_str()), "focus") {
                assert(nd[ix(i)].contains("focus"@)) by {
                    assert(rd[ix(k)] == "focus"@);
                }
                return true;
            }
            k += 1;
        }
        assert(!nd[ix(i)].contains("focus"@));
        i += 1;
    }
    false
}


// ── highlighter events ─────────────────────────────────────────────────

/// One event of a highlighter run over a text: a capture opens (by its
/// index among the capture names), the innermost open capture closes,
/// or a span of the text's UTF-8 bytes.
#[derive(Debug)]
pub enum HighlightStep {
    Start(usize),
    End,
    Source(usize, usize),
}

/// The UTF-8 length of a character.
pub open spec fn utf8_len(c: char) -> nat {
    if (c as u32) < 0x80 {
        1
    } else if (c as u32) < 0x800 {
        2
    } else if (c as u32) < 0x10000 {
        3
    } else {
        4
    }
}

/// The byte offset where character `k` starts.
pub open spec fn byte_at(s: Seq<char>, k: int) -> nat
    decreases k,
{
    if k <= 0 {
        0
    } else {
        byte_at(s, k - 1) + utf8_len(s[k - 1])
    }
}

/// The index of the character starting at byte `b` (the end of the
/// text counting as one past the last), searched from `k`; 0 when no
/// character starts there.
pub open spec fn char_at_byte(s: Seq<char>, b: nat, k: int) -> nat
    decreases s.len() + 1 - k,
{
    if k < 0 || k > s.len() {
        0
    } else if byte_at(s, k) == b {
        k as nat
    } else {
        char_at_byte(s, b, k + 1)
    }
}

/// The capture name an event opens (empty past the known names).
pub open spec fn step_name(h: usize) -> Seq<char> {
    if h < CAPTURE_COUNT {
        capture_name_at(h as int)
    } else {
        Seq::empty()
    }
}

/// Every source span of the events lies within `total` bytes.
pub open spec fn steps_in_range(steps: Seq<HighlightStep>, total: nat) -> bool {
    forall|i: int| 0 <= i < steps.len() ==> (#[trigger] steps[i] matches HighlightStep::Source(a, b) ==> a <= total && b <= total)
}

/// The open captures and the segments after a run of events: each source
/// span, in characters, with the innermost open capture.
pub open spec fn seg_state(steps: Seq<HighlightStep>, s: Seq<char>) -> (Seq<Seq<char>>, Seq<SegView>)
    decreases steps.len(),
{
    if steps.len() == 0 {
        (Seq::empty(), Seq::empty())
    } else {
        let (st, segs) = seg_state(steps.drop_last(), s);
        match steps.last() {
            HighlightStep::Start(h) => (st.push(step_name(h)), segs),
            HighlightStep::End => (
                if st.len() > 0 {
                    st.drop_last()
                } else {
                    st
                },
                segs,
            ),
            HighlightStep::Source(a, b) => (
                st,
                segs.push(
                    (
                        char_at_byte(s, a as nat, 0) as usize,
                        char_at_byte(s, b as nat, 0) as usize,
                        if st.len() > 0 {
                            Some(st.last())
                        } else {
                            None
                        },
                    ),
                ),
            ),
        }
    }
}

fn utf8_len_v(c: char) -> (n: usize)
    ensures
        n == utf8_len(c),
{
    let u: u32 = c as u32;
    if u < 0x80 {
        1
    } else if u < 0x800 {
        2
    } else if u < 0x10000 {
        3
    } else {
        4
    }
}

proof fn lemma_byte_at_bound(s: Seq<char>, k: int)
    requires
        0 <= k,
    ensures
        byte_at(s, k) <= 4 * k,
    decreases k,
{
    if k > 0 {
        lemma_byte_at_bound(s, k - 1);
    }
}

/// The byte length of a text.
fn byte_len_v(s: &Vec<char>) -> (n: usize)
    requires
        s.len() < usize::MAX / 4,
    ensures
        n == byte_at(s@, s.len() as int),
{
    let mut k: usize = 0;
    let mut pos: usize = 0;
    while k < s.len()
        invariant
            k <= s.len() < usize::MAX / 4,
            pos == byte_at(s@, k as int),
        decreases s.len() - k,
    {
        proof {
            lemma_byte_at_bound(s@, k + 1);
        }
        pos = pos + utf8_len_v(s[k]);
        k += 1;
    }
    pos
}

fn char_at_byte_v(s: &Vec<char>, b: usize) -> (r: usize)
    requires
        s.len() < usize::MAX / 4,
    ensures
        r == char_at_byte(s@, b as nat, 0),
{
    let mut k: usize = 0;
    let mut pos: usize = 0;
    loop
        invariant
            k <= s.len() < usize::MAX / 4,
            pos == byte_at(s@, k as int),
            char_at_byte(s@, b as nat, 0) == char_at_byte(s@, b as nat, k as int),
        decreases s.len() - k,
    {
        if pos == b {
            return k;
        }
        if k == s.len() {
            assert(char_at_byte(s@, b as nat, k + 1) == 0);
            return 0;
        }
        proof {
            lemma_byte_at_bound(s@, k + 1);
        }
        pos = pos + utf8_len_v(s[k]);
        k += 1;
    }
}

/// The capture segments of a highlighter run over `text`; `None` when a
/// span lies past the text's end.
pub fn segments_from_steps(steps: &Vec<HighlightStep>, text: &Vec<char>) -> (r: Option<Vec<(usize, usize, Option<String>)>>)
    requires
        text.len() < usize::MAX / 4,
    ensures
        match r {
            Some(v) => steps_in_range(steps@, byte_at(text@, text@.len() as int)) && v.deep_view() == seg_state(
                steps@,
                text@,
            ).1,
            None => !steps_in_range(steps@, byte_at(text@, text@.len() as int)),
        },
{
    let total = byte_len_v(text);
    let mut stack: Vec<String> = Vec::new();
    let mut segs: Vec<(usize, usize, Option<String>)> = Vec::new();
    let mut i: usize = 0;
    assert(steps@.take(0) =~= Seq::<HighlightStep>::empty());
    while i < steps.len()
        invariant
            i <= steps.len(),
            text.len() < usize::MAX / 4,
            total == byte_at(text@, text@.len() as int),
            steps_in_range(steps@.take(i as int), total as nat),
            stack.deep_view() == seg_state(steps@.take(i as int), text@).0,
            segs.deep_view() == seg_state(steps@.take(i as int), text@).1,
        decreases steps.len() - i,
    {
        assert(steps@.take(i + 1).drop_last() =~= steps@.take(i as int));
        assert(steps@.take(i + 1).last() == steps@[i as int]);
        match &steps[i] {
            HighlightStep::Start(h) => {
                let name = if *h < CAPTURE_COUNT {
                    String::from_str(capture_name(*h))
                } else {
                    from_chars(&Vec::new())
                };
                let ghost before = stack.deep_view();
                stack.push(name);
                assert(stack.deep_view() =~= before.push(step_name(*h)));
            },
            HighlightStep::End => {
                if stack.len() > 0 {
                    let ghost before = stack.deep_view();
                    stack.pop();
                    assert(stack.deep_view() =~= before.drop_last());
                }
            },
            HighlightStep::Source(a, b) => {
                if *a > total || *b > total {
                    assert(!steps_in_range(steps@, total as nat)) by {
                        assert(steps@[i as int] == steps@.take(i + 1).last());
                    }
                    return None;
                }
                let cap = if stack.len() > 0 {
                    Some(from_chars(&to_chars(stack[stack.len() - 1].as_str())))
                } else {
                    None
                };
                let ghost before = segs.deep_view();
                let ghost sv = stack.deep_view();
                let seg = (char_at_byte_v(text, *a), char_at_byte_v(text, *b), cap);
                segs.push(seg);
                proof {
                    if stack.len() > 0 {
                        assert(sv.last() == stack@[stack.len() - 1]@);
                    }
                    assert(segs.deep_view() =~= before.push(
                        (
                            char_at_byte(text@, *a as nat, 0) as usize,
                            char_at_byte(text@, *b as nat, 0) as usize,
                            if sv.len() > 0 {
                                Some(sv.last())
                            } else {
                                None
                            },
                        ),
                    ));
                }
            },
        }
        assert forall|j: int| 0 <= j < steps@.take(i + 1).len() implies (#[trigger] steps@.take(i + 1)[j] matches HighlightStep::Source(a, b) ==> a <= total && b <= total) by {
            if j < i {
                assert(steps@.take(i + 1)[j] == steps@.take(i as int)[j]);
            }
        }
        i += 1;
    }
    assert(steps@.take(steps.len() as int) =~= steps@);
    Some(segs)
}


/// Checks `segments_ordered`.
pub fn segments_ordered_v(segs: &Vec<(usize, usize, Option<String>)>, len: usize) -> (b: bool)
    ensures
        b == segments_ordered(segs.deep_view(), len as nat),
{
    let ghost sv = segs.deep_view();
    let mut i: usize = 0;
    while i < segs.len()
        invariant
            i <= segs.len(),
            sv == segs.deep_view(),
            forall|k: int| 0 <= k < i ==> (#[trigger] sv[k]).0 <= sv[k].1 <= len,
            forall|a: int, b: int| 0 <= a < b < i ==> (#[trigger] sv[a]).1 <= (#[trigger] sv[b]).0,
        decreases segs.len() - i,
    {
        let (s0, e0) = (segs[i].0, segs[i].1);
        assert(sv[i as int].0 == s0 && sv[i as int].1 == e0);
        if !(s0 <= e0 && e0 <= len) {
            return false;
        }
        if i > 0 && segs[i - 1].1 > s0 {
            assert(!segments_ordered(sv, len as nat)) by {
                assert(sv[i - 1].1 > sv[i as int].0);
            }
            return false;
        }
        proof {
            assert forall|a: int, b: int| 0 <= a < b < i + 1 implies (#[trigger] sv[a]).1 <= (#[trigger] sv[b]).0 by {
                if b == i && a < i - 1 {
                    assert(sv[a].1 <= sv[i - 1].0);
                }
            }
        }
        i += 1;
    }
    true
}

/// The segments a fence is highlighted with: those the highlighter's
/// events make over the notation-free text, when they lie in order
/// within it and the rendered lines all have notes; else none (plain
/// lines).
pub open spec fn fence_segments(
    lines: Seq<Seq<char>>,
    notes: Seq<Seq<Seq<char>>>,
    steps: Option<Seq<HighlightStep>>,
) -> Option<Seq<SegView>> {
    let text = concat_lines(lines);
    match steps {
        None => None,
        Some(st) => if steps_in_range(st, byte_at(text, text.len() as int)) && segments_ordered(
            seg_state(st, text).1,
            text.len(),
        ) && line_starts(text).len() <= notes.len() {
            Some(seg_state(st, text).1)
        } else {
            None
        },
    }
}

impl GdCodeRenderer {
    /// A fence's block from its metadata, its notation-free lines with
    /// their notes, and the highlighter's events over the lines' text
    /// (`None` without a grammar).
    pub fn render_fence(
        &self,
        spec: &FenceSpec,
        lines: &Vec<String>,
        notes: &Vec<Vec<String>>,
        steps: &Option<Vec<HighlightStep>>,
    ) -> (r: String)
        requires
            notes.len() >= lines.len(),
            concat_lines(lines.deep_view()).len() < usize::MAX / 4,
        ensures
            r@ == spec_render_block(
                self.options,
                *spec,
                lines.deep_view(),
                notes.deep_view(),
                fence_segments(
                    lines.deep_view(),
                    notes.deep_view(),
                    match steps {
                        Some(v) => Some(v@),
                        None => None,
                    },
                ),
            ),
    {
        let text = concat_v(lines);
        let segments = match steps {
            Some(st) => match segments_from_steps(st, &text) {
                Some(sg) => {
                    if segments_ordered_v(&sg, text.len()) && rendered_line_count(lines) <= notes.len() {
                        Some(sg)
                    } else {
                        None
                    }
                },
                None => None,
            },
            None => None,
        };
        self.render_block(spec, lines, notes, &segments)
    }

    /// One code block from its parsed metadata, its lines (notations
    /// already stripped, each with its `\n`), the per-line notation
    /// classes, and, for a language with a grammar, the highlighter's
    /// capture segments over the joined lines.
    pub fn render_block(
        &self,
        spec: &FenceSpec,
        lines: &Vec<String>,
        notes: &Vec<Vec<String>>,
        segments: &Option<Vec<(usize, usize, Option<String>)>>,
    ) -> (r: String)
        requires
            notes.len() >= lines.len(),
            segments is Some ==> notes.len() >= line_starts(concat_lines(lines.deep_view())).len()
                && segments_ordered(segments->0.deep_view(), concat_lines(lines.deep_view()).len()),
        ensures
            r@ == spec_render_block(self.options, *spec, lines.deep_view(), notes.deep_view(), segments.deep_view()),
    {
        let lang = to_chars(spec.lang.as_str());
        let mut out: Vec<char> = Vec::new();
        push_block_head(&mut out, spec);
        push_pre_open(&mut out, self.options, spec, notes);
        push_code_open(&mut out, self.options, spec);
        let ghost before_body = out@;
        if is_ansi_lang_v(&lang) {
            push_ansi_lines(&mut out, lines, notes, &spec.hl);
        } else {
            match segments {
                Some(sg) => push_highlighted_lines(&mut out, lines, notes, &spec.hl, sg),
                None => push_plain_lines(&mut out, lines, notes, &spec.hl),
            }
        }
        assert(out@ == before_body + block_body(
            spec.lang@,
            lines.deep_view(),
            notes.deep_view(),
            spec.hl@,
            segments.deep_view(),
        ));
        push_str(&mut out, "</code></pre>");
        if spec.label.is_some() && !spec.group {
            push_str(&mut out, "</div>");
        }
        proof {
            reveal_strlit("");
        }
        assert(out@ =~= spec_render_block(self.options, *spec, lines.deep_view(), notes.deep_view(), segments.deep_view()));
        from_chars(&out)
    }
}


// ── line notations ─────────────────────────────────────────────────────

/// One notation match as plain values: the text before it, whether it
/// is escaped (`[!!code …]`), its kind, its `:N` digits.
pub type NotationPart = (Seq<char>, bool, Seq<char>, Option<Seq<char>>);

/// What the notation pattern
/// `\[!(!)?code\s+(highlight|hl|focus|warning|error|\+\+|--)(?::(\d+))?\]`
/// finds in a line: each match (left to right) with the text before it,
/// then the text after the last match.
pub uninterp spec fn spec_notation_split(line: Seq<char>) -> (Seq<NotationPart>, Seq<char>);

/// `regex::Regex::captures_iter` with the notation pattern, each match
/// taken apart into the text before it and its groups; the result is
/// named by `spec_notation_split`. A line without `[` has no match and
/// is all tail.
#[verifier::external_body]
fn notation_split(line: &str) -> (r: (Vec<(String, bool, String, Option<String>)>, String))
    ensures
        (r.0.deep_view(), r.1@) == spec_notation_split(line@),
        !line@.contains('[') ==> r.0.len() == 0 && r.1@ == line@,
{
    let re = regex::Regex::new(r"\[!(!)?code\s+(highlight|hl|focus|warning|error|\+\+|--)(?::(\d+))?\]").unwrap();
    let mut parts = Vec::new();
    let mut last: usize = 0;
    for cap in re.captures_iter(line) {
        let whole = cap.get(0).unwrap();
        parts.push((line[last..whole.start()].to_string(), cap.get(1).is_some(), cap[2].to_string(), cap.get(3).map(|m| m.as_str().to_string())));
        last = whole.end();
    }
    (parts, line[last..].to_string())
}

/// A match as it stays in the text: nothing, or for an escaped one the
/// notation with one `!` dropped.
pub open spec fn part_text(p: NotationPart) -> Seq<char> {
    p.0 + if p.1 {
        "[!code "@ + p.2 + match p.3 {
            Some(n) => ":"@ + n,
            None => Seq::empty(),
        } + "]"@
    } else {
        Seq::empty()
    }
}

/// The line with its notations removed.
pub open spec fn clean_line(parts: Seq<NotationPart>, tail: Seq<char>) -> Seq<char>
    decreases parts.len(),
{
    if parts.len() == 0 {
        tail
    } else {
        part_text(parts[0]) + clean_line(parts.drop_first(), tail)
    }
}

/// How many lines after its own a notation also covers (`:N` covers N
/// lines in all).
pub open spec fn extra_lines(p: NotationPart) -> int {
    match p.3 {
        Some(d) => match parse_usize(d) {
            Some(n) => if n >= 1 {
                n - 1
            } else {
                0
            },
            None => 0,
        },
        None => 0,
    }
}

/// The classes the notations of a line give the line `dist` lines
/// below it (0 for the line itself).
pub open spec fn classes_at(parts: Seq<NotationPart>, dist: int) -> Seq<Seq<char>>
    decreases parts.len(),
{
    if parts.len() == 0 {
        Seq::empty()
    } else {
        let p = parts.last();
        classes_at(parts.drop_last(), dist) + if !p.1 && (dist == 0 || dist <= extra_lines(p)) {
            seq![notation_class(p.2)]
        } else {
            Seq::empty()
        }
    }
}

/// The notation classes of line `idx`: what earlier lines carry down to
/// it (in line order), then its own.
pub open spec fn carried(splits: Seq<(Seq<NotationPart>, Seq<char>)>, idx: int, j: int) -> Seq<Seq<char>>
    decreases j,
{
    if j <= 0 {
        Seq::empty()
    } else {
        carried(splits, idx, j - 1) + classes_at(splits[j - 1].0, idx - (j - 1))
    }
}

pub open spec fn notes_of(splits: Seq<(Seq<NotationPart>, Seq<char>)>, idx: int) -> Seq<Seq<char>> {
    carried(splits, idx, idx) + classes_at(splits[idx].0, 0)
}

fn notation_class_v(kind: &String) -> (r: String)
    ensures
        r@ == notation_class(kind@),
{
    let k = to_chars(kind.as_str());
    let c = if eq_str(&k, "highlight") || eq_str(&k, "hl") {
        "hl"
    } else if eq_str(&k, "focus") {
        "focus"
    } else if eq_str(&k, "++") {
        "diff add"
    } else if eq_str(&k, "--") {
        "diff remove"
    } else if eq_str(&k, "warning") {
        "warning"
    } else {
        "error"
    };
    String::from_str(c)
}

fn extra_lines_v(p: &(String, bool, String, Option<String>)) -> (n: usize)
    ensures
        n as int == extra_lines(p.deep_view()),
{
    match &p.3 {
        Some(d) => match parse_usize_v(&to_chars(d.as_str())) {
            Some(n) => if n >= 1 {
                n - 1
            } else {
                0
            },
            None => 0,
        },
        None => 0,
    }
}

/// Appends the classes a line's notations give the line `dist` below.
fn push_classes_at(out: &mut Vec<String>, parts: &Vec<(String, bool, String, Option<String>)>, dist: usize)
    ensures
        final(out).deep_view() == old(out).deep_view() + classes_at(parts.deep_view(), dist as int),
{
    let ghost pd = parts.deep_view();
    let ghost start = out.deep_view();
    let mut i: usize = 0;
    assert(pd.take(0) =~= Seq::<NotationPart>::empty());
    assert(out.deep_view() =~= start + classes_at(pd.take(0), dist as int));
    while i < parts.len()
        invariant
            i <= parts.len(),
            pd == parts.deep_view(),
            out.deep_view() == start + classes_at(pd.take(ix(i)), dist as int),
        decreases parts.len() - i,
    {
        let p = &parts[i];
        assert(pd[ix(i)] == p.deep_view());
        assert(pd.take(ix(i) + 1).drop_last() =~= pd.take(ix(i)));
        assert(pd.take(ix(i) + 1).last() == p.deep_view());
        let ghost before = out.deep_view();
        if !p.1 && (dist == 0 || dist <= extra_lines_v(p)) {
            let c = notation_class_v(&p.2);
            out.push(c);
            assert(out.deep_view() =~= before + seq![notation_class(p.2@)]);
        } else {
            assert(out.deep_view() =~= before + Seq::<Seq<char>>::empty());
        }
        i += 1;
    }
    assert(pd.take(ix(i)) =~= pd);
}

fn push_clean(out: &mut Vec<char>, parts: &Vec<(String, bool, String, Option<String>)>, tail: &String)
    ensures
        final(out)@ == old(out)@ + clean_line(parts.deep_view(), tail@),
{
    let ghost pd = parts.deep_view();
    let ghost goal = old(out)@ + clean_line(pd, tail@);
    let mut i: usize = 0;
    assert(pd.skip(0) =~= pd);
    while i < parts.len()
        invariant
            i <= parts.len(),
            pd == parts.deep_view(),
            goal == out@ + clean_line(pd.skip(ix(i)), tail@),
        decreases parts.len() - i,
    {
        let p = &parts[i];
        assert(pd[ix(i)] == p.deep_view());
        assert(pd.skip(ix(i))[0] == pd[ix(i)]);
        assert(pd.skip(ix(i)).drop_first() =~= pd.skip(ix(i) + 1));
        let ghost mid = out@;
        push_str(out, p.0.as_str());
        if p.1 {
            push_str(out, "[!code ");
            push_str(out, p.2.as_str());
            match &p.3 {
                Some(n) => {
                    push_str(out, ":");
                    push_str(out, n.as_str());
                },
                None => {},
            }
            push_str(out, "]");
        }
        proof {
            reveal_strlit("");
        }
        assert(out@ =~= mid + part_text(pd[ix(i)]));
        i += 1;
    }
    push_str(out, tail.as_str());
    assert(pd.skip(ix(i)) =~= Seq::<NotationPart>::empty());
}

/// Shiki-style line notations: `[!code highlight]` / `hl` / `focus` /
/// `++` / `--` / `warning` / `error` become classes of their line (and,
/// with `:N`, of the next N-1 lines too) and leave the text;
/// `[!!code …]` stays as literal `[!code …]`. Returns the cleaned lines
/// and each line's classes.
pub fn line_notations(lines: &Vec<String>) -> (r: (Vec<String>, Vec<Vec<String>>))
    ensures
        r.0.len() == lines.len(),
        r.1.len() == lines.len(),
        forall|i: int|
            0 <= i < lines.len() ==> {
                let sp = spec_notation_split(#[trigger] lines@[i]@);
                r.0@[i]@ == clean_line(sp.0, sp.1)
            },
        forall|i: int|
            0 <= i < lines.len() ==> (#[trigger] r.1@[i]).deep_view() == notes_of(
                lines.deep_view().map_values(|l: Seq<char>| spec_notation_split(l)),
                i,
            ),
        forall|i: int|
            0 <= i < lines.len() && !(#[trigger] lines@[i])@.contains('[') ==> {
                &&& r.0@[i]@ == lines@[i]@
                &&& spec_notation_split(lines@[i]@).0.len() == 0
                &&& r.1@[i].deep_view() == carried(
                    lines.deep_view().map_values(|l: Seq<char>| spec_notation_split(l)),
                    i,
                    i,
                )
            },
{
    let ghost ld = lines.deep_view();
    let ghost splits = ld.map_values(|l: Seq<char>| spec_notation_split(l));
    let mut parsed: Vec<(Vec<(String, bool, String, Option<String>)>, String)> = Vec::new();
    let mut clean: Vec<String> = Vec::new();
    let mut i: usize = 0;
    while i < lines.len()
        invariant
            i <= lines.len(),
            ld == lines.deep_view(),
            splits == ld.map_values(|l: Seq<char>| spec_notation_split(l)),
            parsed.len() == i,
            clean.len() == i,
            forall|k: int| 0 <= k < i ==> ((#[trigger] parsed@[k]).0.deep_view(), parsed@[k].1@) == splits[k],
            forall|k: int|
                0 <= k < i ==> (#[trigger] clean@[k])@ == clean_line(splits[k].0, splits[k].1),
            forall|k: int|
                0 <= k < i && !(#[trigger] ld[k]).contains('[') ==> splits[k].0.len() == 0 && splits[k].1
                    == ld[k],
        decreases lines.len() - i,
    {
        assert(ld[ix(i)] == lines@[ix(i)]@);
        let (parts, tail) = notation_split(lines[i].as_str());
        assert(splits[ix(i)] == spec_notation_split(ld[ix(i)]));
        let mut c: Vec<char> = Vec::new();
        push_clean(&mut c, &parts, &tail);
        clean.push(from_chars(&c));
        parsed.push((parts, tail));
        i += 1;
    }
    let mut notes: Vec<Vec<String>> = Vec::new();
    let mut idx: usize = 0;
    while idx < lines.len()
        invariant
            idx <= lines.len(),
            parsed.len() == lines.len(),
            ld == lines.deep_view(),
            splits == ld.map_values(|l: Seq<char>| spec_notation_split(l)),
            forall|k: int| 0 <= k < lines.len() ==> ((#[trigger] parsed@[k]).0.deep_view(), parsed@[k].1@) == splits[k],
            forall|k: int|
                0 <= k < lines.len() && !(#[trigger] ld[k]).contains('[') ==> splits[k].0.len() == 0 && splits[k].1
                    == ld[k],
            forall|k: int|
                0 <= k < lines.len() ==> (#[trigger] clean@[k])@ == clean_line(splits[k].0, splits[k].1),
            clean.len() == lines.len(),
            notes.len() == idx,
            forall|k: int| 0 <= k < idx ==> (#[trigger] notes@[k]).deep_view() == notes_of(splits, k),
        decreases lines.len() - idx,
    {
        let mut row: Vec<String> = Vec::new();
        let mut j: usize = 0;
        assert(row.deep_view() =~= carried(splits, ix(idx), 0));
        while j < idx
            invariant
                j <= idx,
                idx < lines.len(),
                parsed.len() == lines.len(),
                splits.len() == lines.len(),
                forall|k: int| 0 <= k < lines.len() ==> ((#[trigger] parsed@[k]).0.deep_view(), parsed@[k].1@) == splits[k],
                row.deep_view() == carried(splits, ix(idx), ix(j)),
            decreases idx - j,
        {
            assert(parsed@[ix(j)].0.deep_view() == splits[ix(j)].0);
            push_classes_at(&mut row, &parsed[j].0, idx - j);
            j += 1;
        }
        assert(parsed@[ix(idx)].0.deep_view() == splits[ix(idx)].0);
        push_classes_at(&mut row, &parsed[idx].0, 0);
        notes.push(row);
        idx += 1;
    }
    assert forall|i: int| 0 <= i < lines.len() && !(#[trigger] lines@[i])@.contains('[') implies {
        &&& clean@[i]@ == lines@[i]@
        &&& spec_notation_split(lines@[i]@).0.len() == 0
        &&& notes@[i].deep_view() == carried(splits, i, i)
    } by {
        assert(ld[i] == lines@[i]@);
        assert(splits[i] == spec_notation_split(ld[i]));
        assert(classes_at(splits[i].0, 0) =~= Seq::<Seq<char>>::empty());
        assert(carried(splits, i, i) + classes_at(splits[i].0, 0) =~= carried(splits, i, i));
    }
    (clean, notes)
}

// ── a fence ready for highlighting ─────────────────────────────────────

/// A code fence's parts: its meta, its lines with the notations taken
/// out (each keeping its `\n`), each line's notation classes, and the
/// text the grammar highlights (those lines joined).
pub struct FenceParts {
    pub spec: FenceSpec,
    pub lines: Vec<String>,
    pub notes: Vec<Vec<String>>,
    pub text: String,
}

/// The lines of a fence's code without their notations.
pub open spec fn fence_lines(code: Seq<char>) -> Seq<Seq<char>> {
    split_lines(code).map_values(
        |l: Seq<char>|
            {
                let sp = spec_notation_split(l);
                clean_line(sp.0, sp.1)
            },
    )
}

/// Each line's notation classes.
pub open spec fn fence_notes(code: Seq<char>) -> Seq<Seq<Seq<char>>> {
    let splits = split_lines(code).map_values(|l: Seq<char>| spec_notation_split(l));
    Seq::new(splits.len(), |i: int| notes_of(splits, i))
}

/// Splits a fence's code into its parts; `None` when the cleaned text
/// is too long to index by bytes (a quarter of the address space).
pub fn fence_parts(meta: &str, code: &str) -> (r: Option<FenceParts>)
    ensures
        match r {
            Some(p) => {
                &&& meta_ok(p.spec, meta@)
                &&& p.lines.deep_view() == fence_lines(code@)
                &&& p.notes.len() == p.lines.len()
                &&& p.notes.deep_view() == fence_notes(code@)
                &&& forall|i: int|
                    0 <= i < p.notes.len() ==> (#[trigger] p.notes@[i]).deep_view() == notes_of(
                        split_lines(code@).map_values(|l: Seq<char>| spec_notation_split(l)),
                        i,
                    )
                &&& forall|i: int|
                    0 <= i < split_lines(code@).len() && !(#[trigger] split_lines(code@)[i]).contains('[') ==> {
                        &&& fence_lines(code@)[i] == split_lines(code@)[i]
                        &&& p.notes@[i].deep_view() == carried(
                            split_lines(code@).map_values(|l: Seq<char>| spec_notation_split(l)),
                            i,
                            i,
                        )
                    }
                &&& p.text@ == concat_lines(fence_lines(code@))
                &&& p.text@.len() < usize::MAX / 4
            },
            None => concat_lines(fence_lines(code@)).len() >= usize::MAX / 4,
        },
{
    let spec = FenceSpec::parse_meta(meta);
    let raw = split_lines_v(&to_chars(code));
    let mut lines_in: Vec<String> = Vec::new();
    let mut k: usize = 0;
    while k < raw.len()
        invariant
            k <= raw.len(),
            raw.len() == split_lines(code@).len(),
            forall|j: int| 0 <= j < raw.len() ==> (#[trigger] raw@[j])@ == split_lines(code@)[j],
            lines_in.len() == k,
            forall|j: int| 0 <= j < k ==> (#[trigger] lines_in@[j])@ == split_lines(code@)[j],
        decreases raw.len() - k,
    {
        lines_in.push(from_chars(&raw[k]));
        k += 1;
    }
    assert(lines_in.deep_view() =~= split_lines(code@));
    let (lines, notes) = line_notations(&lines_in);
    assert(lines.deep_view() =~= fence_lines(code@));
    assert(notes.deep_view() =~= fence_notes(code@));
    let mut text: Vec<char> = Vec::new();
    let mut i: usize = 0;
    assert(fence_lines(code@).take(0) =~= Seq::<Seq<char>>::empty());
    while i < lines.len()
        invariant
            i <= lines.len(),
            lines.deep_view() == fence_lines(code@),
            text@ == concat_lines(fence_lines(code@).take(i as int)),
        decreases lines.len() - i,
    {
        proof {
            assert(fence_lines(code@).take(i as int + 1).drop_last() =~= fence_lines(code@).take(i as int));
            assert(lines@[i as int]@ == lines.deep_view()[i as int]);
        }
        if text.len() >= usize::MAX / 4 {
            proof {
                lemma_concat_prefix_len(fence_lines(code@), i as int);
            }
            return None;
        }
        push_all(&mut text, &to_chars(lines[i].as_str()));
        i += 1;
    }
    assert(fence_lines(code@).take(i as int) =~= fence_lines(code@));
    if text.len() >= usize::MAX / 4 {
        return None;
    }
    let t = from_chars(&text);
    Some(FenceParts { spec, lines, notes, text: t })
}

/// Joining more lines never makes the text shorter.
proof fn lemma_concat_prefix_len(ls: Seq<Seq<char>>, i: int)
    requires
        0 <= i <= ls.len(),
    ensures
        concat_lines(ls.take(i)).len() <= concat_lines(ls).len(),
    decreases ls.len() - i,
{
    if i < ls.len() {
        lemma_concat_prefix_len(ls, i + 1);
        assert(ls.take(i + 1).drop_last() =~= ls.take(i));
    } else {
        assert(ls.take(i) =~= ls);
    }
}


/// A notation kind named in a fence (`hl` and `highlight` are one kind).
pub open spec fn known_notation(k: Seq<char>) -> bool {
    k == "highlight"@ || k == "hl"@ || k == "focus"@ || k == "++"@ || k == "--"@ || k == "warning"@ || k == "error"@
}

/// Each notation kind styles its line with a class of its own: `focus`,
/// `warning` and `error` with their own names, `++` and `--` with the
/// two diff classes, `highlight`/`hl` with `hl`; two kinds share a class
/// only when they are the two names of highlighting.
pub proof fn law_notation_classes_tell_kinds_apart(a: Seq<char>, b: Seq<char>)
    requires
        known_notation(a),
        known_notation(b),
    ensures
        (a == "focus"@ || a == "warning"@ || a == "error"@) ==> notation_class(a) == a,
        a == "++"@ ==> notation_class(a) == "diff add"@,
        a == "--"@ ==> notation_class(a) == "diff remove"@,
        (a == "highlight"@ || a == "hl"@) ==> notation_class(a) == "hl"@,
        notation_class(a) == notation_class(b) ==> (a == b || ((a == "highlight"@ || a == "hl"@) && (b
            == "highlight"@ || b == "hl"@))),
{
    reveal_strlit("++");
    reveal_strlit("--");
    reveal_strlit("diff add");
    reveal_strlit("diff remove");
    reveal_strlit("error");
    reveal_strlit("focus");
    reveal_strlit("highlight");
    reveal_strlit("hl");
    reveal_strlit("warning");
    assert("++"@ != "--"@) by { assert("++"@[0] != "--"@[0]); }
    assert("++"@ != "diff add"@) by { assert("++"@.len() != "diff add"@.len()); }
    assert("++"@ != "diff remove"@) by { assert("++"@.len() != "diff remove"@.len()); }
    assert("++"@ != "error"@) by { assert("++"@.len() != "error"@.len()); }
    assert("++"@ != "focus"@) by { assert("++"@.len() != "focus"@.len()); }
    assert("++"@ != "highlight"@) by { assert("++"@.len() != "highlight"@.len()); }
    assert("++"@ != "hl"@) by { assert("++"@[0] != "hl"@[0]); }
    assert("++"@ != "warning"@) by { assert("++"@.len() != "warning"@.len()); }
    assert("--"@ != "diff add"@) by { assert("--"@.len() != "diff add"@.len()); }
    assert("--"@ != "diff remove"@) by { assert("--"@.len() != "diff remove"@.len()); }
    assert("--"@ != "error"@) by { assert("--"@.len() != "error"@.len()); }
    assert("--"@ != "focus"@) by { assert("--"@.len() != "focus"@.len()); }
    assert("--"@ != "highlight"@) by { assert("--"@.len() != "highlight"@.len()); }
    assert("--"@ != "hl"@) by { assert("--"@[0] != "hl"@[0]); }
    assert("--"@ != "warning"@) by { assert("--"@.len() != "warning"@.len()); }
    assert("diff add"@ != "diff remove"@) by { assert("diff add"@.len() != "diff remove"@.len()); }
    assert("diff add"@ != "error"@) by { assert("diff add"@.len() != "error"@.len()); }
    assert("diff add"@ != "focus"@) by { assert("diff add"@.len() != "focus"@.len()); }
    assert("diff add"@ != "highlight"@) by { assert("diff add"@.len() != "highlight"@.len()); }
    assert("diff add"@ != "hl"@) by { assert("diff add"@.len() != "hl"@.len()); }
    assert("diff add"@ != "warning"@) by { assert("diff add"@.len() != "warning"@.len()); }
    assert("diff remove"@ != "error"@) by { assert("diff remove"@.len() != "error"@.len()); }
    assert("diff remove"@ != "focus"@) by { assert("diff remove"@.len() != "focus"@.len()); }
    assert("diff remove"@ != "highlight"@) by { assert("diff remove"@.len() != "highlight"@.len()); }
    assert("diff remove"@ != "hl"@) by { assert("diff remove"@.len() != "hl"@.len()); }
    assert("diff remove"@ != "warning"@) by { assert("diff remove"@.len() != "warning"@.len()); }
    assert("error"@ != "focus"@) by { assert("error"@[0] != "focus"@[0]); }
    assert("error"@ != "highlight"@) by { assert("error"@.len() != "highlight"@.len()); }
    assert("error"@ != "hl"@) by { assert("error"@.len() != "hl"@.len()); }
    assert("error"@ != "warning"@) by { assert("error"@.len() != "warning"@.len()); }
    assert("focus"@ != "highlight"@) by { assert("focus"@.len() != "highlight"@.len()); }
    assert("focus"@ != "hl"@) by { assert("focus"@.len() != "hl"@.len()); }
    assert("focus"@ != "warning"@) by { assert("focus"@.len() != "warning"@.len()); }
    assert("highlight"@ != "hl"@) by { assert("highlight"@.len() != "hl"@.len()); }
    assert("highlight"@ != "warning"@) by { assert("highlight"@.len() != "warning"@.len()); }
    assert("hl"@ != "warning"@) by { assert("hl"@.len() != "warning"@.len()); }
}

} // verus!
