//! The doc page's plain-text parts: the outline ("on this page") list,
//! pager labels, and the last-updated timestamp text.

use vstd::prelude::*;

use crate::config::PagerLabel;
use crate::markdown::highlight::{dec, digit_char_v};
use crate::markdown::preprocess::{escape_seq, push_escaped};
use crate::markdown::{toc_close, toc_close_v, toc_finish, Heading, TocState};
use crate::text::{from_chars, ix, push_all, push_str, to_chars};

verus! {

broadcast use vstd::string::group_string_axioms;

// ── pager labels ───────────────────────────────────────────────────────

/// `None`: the default label; `Some(Ok(text))`: an override;
/// `Err(())`: `false`, that pager side is disabled.
pub open spec fn spec_pager_label(label: Option<PagerLabel>, default: Seq<char>) -> Result<Seq<char>, ()> {
    match label {
        None => Ok(default),
        Some(PagerLabel::Text(t)) => Ok(t@),
        Some(PagerLabel::Off(_)) => Err(()),
    }
}

pub fn pager_label(label: &Option<PagerLabel>, default: &str) -> (r: Result<String, ()>)
    ensures
        match (r, spec_pager_label(*label, default@)) {
            (Ok(a), Ok(b)) => a@ == b,
            (Err(_), Err(_)) => true,
            _ => false,
        },
{
    match label {
        None => Ok(String::from_str(default)),
        Some(PagerLabel::Text(t)) => Ok(t.clone()),
        Some(PagerLabel::Off(_)) => Err(()),
    }
}

// ── outline ────────────────────────────────────────────────────────────

/// Text escaping for element content: `&`, `<`, `>`.
pub open spec fn text_escape_char(c: char) -> Seq<char> {
    if c == '&' {
        "&amp;"@
    } else if c == '<' {
        "&lt;"@
    } else if c == '>' {
        "&gt;"@
    } else {
        seq![c]
    }
}

pub open spec fn text_escape(s: Seq<char>) -> Seq<char>
    decreases s.len(),
{
    if s.len() == 0 {
        Seq::empty()
    } else {
        text_escape(s.drop_last()) + text_escape_char(s.last())
    }
}

pub(crate) fn push_text_escaped(out: &mut Vec<char>, s: &Vec<char>)
    ensures
        final(out)@ == old(out)@ + text_escape(s@),
{
    let ghost start = out@;
    let mut i: usize = 0;
    assert(s@.take(0) =~= Seq::<char>::empty());
    while i < s.len()
        invariant
            i <= s.len(),
            out@ == start + text_escape(s@.take(ix(i))),
        decreases s.len() - i,
    {
        let c = s[i];
        let ghost before = out@;
        if c == '&' {
            push_str(out, "&amp;");
        } else if c == '<' {
            push_str(out, "&lt;");
        } else if c == '>' {
            push_str(out, "&gt;");
        } else {
            out.push(c);
        }
        proof {
            reveal_strlit("&amp;");
            reveal_strlit("&lt;");
            reveal_strlit("&gt;");
            let t = s@.take(ix(i) + 1);
            assert(t.drop_last() =~= s@.take(ix(i)));
            assert(t.last() == c);
            assert(out@ =~= start + text_escape(s@.take(ix(i))) + text_escape_char(c));
        }
        i += 1;
    }
    assert(s@.take(ix(i)) =~= s@);
}

/// The class list of an outline link.
pub const OUTLINE_LINK_CLASS: &'static str = "outline-link block leading-[2.2857143] text-[0.875rem] text-text-2 whitespace-nowrap overflow-hidden text-ellipsis transition-colors duration-500 hover:text-text-1 hover:duration-[250ms] [&.active]:text-text-1";

/// One outline entry's link.
pub open spec fn outline_link(id: Seq<char>, text: Seq<char>) -> Seq<char> {
    "<a class=\""@ + OUTLINE_LINK_CLASS@ + "\" href=\"#"@ + id + "\" title=\""@ + escape_seq(text) + "\">"@
        + text_escape(text) + "</a>"@
}

/// One heading into the nested outline: deeper opens an indented
/// sublist, shallower closes lists back down (never the outermost),
/// same level starts a sibling item.
pub open spec fn outline_step(st: TocState, level: u8, id: Seq<char>, text: Seq<char>) -> TocState {
    let (body, stack) = st;
    let link = outline_link(id, text);
    if stack.len() == 0 {
        (body + "<li>"@ + link, seq![level])
    } else if level > stack.last() {
        (body + "<ul class=\"pr-4 pl-4\"><li>"@ + link, stack.push(level))
    } else {
        let (b2, s2) = toc_close(body, stack, level);
        (b2 + "</li><li>"@ + link, s2.update(s2.len() - 1, level))
    }
}

pub open spec fn outline_fold(hs: Seq<(u8, Seq<char>, Seq<char>)>) -> TocState
    decreases hs.len(),
{
    if hs.len() == 0 {
        ("<ul class=\"relative z-[1]\">"@, Seq::empty())
    } else {
        let h = hs.last();
        outline_step(outline_fold(hs.drop_last()), h.0, h.1, h.2)
    }
}

/// The outline list of the headings (VitePress's nesting: a deeper
/// heading nests under the preceding one).
pub open spec fn spec_outline_links(hs: Seq<(u8, Seq<char>, Seq<char>)>) -> Seq<char> {
    let st = outline_fold(hs);
    toc_finish(st.0, st.1)
}

pub open spec fn heading_entry(h: Heading) -> (u8, Seq<char>, Seq<char>) {
    (h.level, h.id@, h.text@)
}

pub fn outline_links(headings: &Vec<Heading>) -> (r: String)
    ensures
        r@ == spec_outline_links(headings@.map_values(|h: Heading| heading_entry(h))),
{
    let ghost hs = headings@.map_values(|h: Heading| heading_entry(h));
    let mut body = to_chars("<ul class=\"relative z-[1]\">");
    let mut stack: Vec<u8> = Vec::new();
    let mut i: usize = 0;
    assert(hs.take(0) =~= Seq::<(u8, Seq<char>, Seq<char>)>::empty());
    while i < headings.len()
        invariant
            i <= headings.len(),
            hs == headings@.map_values(|h: Heading| heading_entry(h)),
            (body@, stack@) == outline_fold(hs.take(ix(i))),
        decreases headings.len() - i,
    {
        let h = &headings[i];
        assert(hs.take(ix(i) + 1).drop_last() =~= hs.take(ix(i)));
        assert(hs.take(ix(i) + 1).last() == heading_entry(*h));
        let tv = to_chars(h.text.as_str());
        let mut link = to_chars("<a class=\"");
        push_str(&mut link, OUTLINE_LINK_CLASS);
        push_str(&mut link, "\" href=\"#");
        push_str(&mut link, h.id.as_str());
        push_str(&mut link, "\" title=\"");
        push_escaped(&mut link, &tv);
        push_str(&mut link, "\">");
        push_text_escaped(&mut link, &tv);
        push_str(&mut link, "</a>");
        assert(link@ =~= outline_link(h.id@, h.text@));
        if stack.len() == 0 {
            push_str(&mut body, "<li>");
            push_all(&mut body, &link);
            stack.push(h.level);
            assert(stack@ =~= seq![h.level]);
        } else if h.level > stack[stack.len() - 1] {
            push_str(&mut body, "<ul class=\"pr-4 pl-4\"><li>");
            push_all(&mut body, &link);
            stack.push(h.level);
        } else {
            toc_close_v(&mut body, &mut stack, h.level);
            push_str(&mut body, "</li><li>");
            push_all(&mut body, &link);
            let last = stack.len() - 1;
            stack.set(last, h.level);
        }
        i += 1;
    }
    assert(hs.take(ix(i)) =~= hs);
    let ghost b1 = body@;
    let ghost s1 = stack@;
    while stack.len() > 1
        invariant
            toc_finish(b1, s1) == toc_finish(body@, stack@),
        decreases stack.len(),
    {
        push_str(&mut body, "</li></ul>");
        let ghost st = stack@;
        stack.pop();
        assert(stack@ =~= st.drop_last());
    }
    if stack.len() > 0 {
        push_str(&mut body, "</li>");
    }
    push_str(&mut body, "</ul>");
    from_chars(&body)
}

fn copy_heading(h: &Heading) -> (r: Heading)
    ensures
        r == *h,
{
    Heading { level: h.level, id: h.id.clone(), text: h.text.clone(), rendered_id: h.rendered_id.clone() }
}

/// The headings an outline range shows, in order.
pub open spec fn in_range(hs: Seq<Heading>, lo: u8, hi: u8) -> Seq<Heading> {
    hs.filter(|h: Heading| lo <= h.level && h.level <= hi)
}

pub fn outline_headings(headings: &Vec<Heading>, lo: u8, hi: u8) -> (r: Vec<Heading>)
    ensures
        r@ == in_range(headings@, lo, hi),
{
    let mut out: Vec<Heading> = Vec::new();
    let mut i: usize = 0;
    proof {
        reveal(Seq::filter);
        assert(headings@.take(0) =~= Seq::<Heading>::empty());
    }
    while i < headings.len()
        invariant
            i <= headings.len(),
            out@ == in_range(headings@.take(ix(i)), lo, hi),
        decreases headings.len() - i,
    {
        proof {
            reveal(Seq::filter);
            assert(headings@.take(ix(i) + 1).drop_last() =~= headings@.take(ix(i)));
        }
        let h = &headings[i];
        if lo <= h.level && h.level <= hi {
            out.push(copy_heading(h));
        }
        i += 1;
    }
    assert(headings@.take(ix(i)) =~= headings@);
    out
}

// ── dates ──────────────────────────────────────────────────────────────

/// Days since 1970-01-01 → (year, month, day), proleptic Gregorian:
/// counted in 400-year eras of 146097 days whose years start on
/// March 1st (so the leap day ends a year), months numbered from March.
pub open spec fn spec_civil_from_days(z: int) -> (int, int, int) {
    let z2 = z + 719468;
    let era = z2 / 146097;
    let doe = z2 - era * 146097;
    let yoe = (doe - doe / 1460 + doe / 36524 - doe / 146096) / 365;
    let doy = doe - (365 * yoe + yoe / 4 - yoe / 100);
    let mp = (5 * doy + 2) / 153;
    let d = doy - (153 * mp + 2) / 5 + 1;
    let m = if mp < 10 { mp + 3 } else { mp - 9 };
    let y = yoe + era * 400;
    (if m <= 2 { y + 1 } else { y }, m, d)
}

pub fn civil_from_days(z: i64) -> (r: (i64, u32, u32))
    requires
        -0x1_0000_0000_0000 <= z <= 0x1_0000_0000_0000,
    ensures
        (r.0 as int, r.1 as int, r.2 as int) == spec_civil_from_days(z as int),
{
    let z2: i64 = z + 719468;
    let era: i64 = if z2 >= 0 {
        z2 / 146097
    } else {
        let n: i64 = -z2;
        -((n + 146096) / 146097)
    };
    assert(era == z2 / 146097) by (nonlinear_arith)
        requires
            z2 >= 0 ==> era == z2 / 146097,
            z2 < 0 ==> era == -((-z2 + 146096) / 146097),
            -0x2_0000_0000_0000 <= z2 <= 0x2_0000_0000_0000,
    ;
    let doe_i: i64 = z2 - era * 146097;
    assert(0 <= doe_i < 146097) by (nonlinear_arith)
        requires
            era == z2 / 146097,
            doe_i == z2 - era * 146097,
    ;
    let doe: u64 = doe_i as u64;
    let yoe: u64 = (doe - doe / 1460 + doe / 36524 - doe / 146096) / 365;
    assert(yoe <= 400);
    let doy: u64 = doe - (365 * yoe + yoe / 4 - yoe / 100);
    let mp: u64 = (5 * doy + 2) / 153;
    assert((153 * mp + 2) / 5 <= doy);
    let d: u64 = doy - (153 * mp + 2) / 5 + 1;
    let m: u64 = if mp < 10 { mp + 3 } else { mp - 9 };
    let y: i64 = yoe as i64 + era * 400;
    let year: i64 = if m <= 2 { y + 1 } else { y };
    (year, m as u32, d as u32)
}

/// English month abbreviations, January first.
pub open spec fn month_abbrev(m: int) -> Seq<char> {
    if m == 1 { "Jan"@ } else if m == 2 { "Feb"@ } else if m == 3 { "Mar"@ } else if m == 4 { "Apr"@ }
    else if m == 5 { "May"@ } else if m == 6 { "Jun"@ } else if m == 7 { "Jul"@ } else if m == 8 { "Aug"@ }
    else if m == 9 { "Sep"@ } else if m == 10 { "Oct"@ } else if m == 11 { "Nov"@ } else { "Dec"@ }
}

fn month_abbrev_v(m: u32) -> (r: &'static str)
    ensures
        r@ == month_abbrev(m as int),
{
    if m == 1 { "Jan" } else if m == 2 { "Feb" } else if m == 3 { "Mar" } else if m == 4 { "Apr" }
    else if m == 5 { "May" } else if m == 6 { "Jun" } else if m == 7 { "Jul" } else if m == 8 { "Aug" }
    else if m == 9 { "Sep" } else if m == 10 { "Oct" } else if m == 11 { "Nov" } else { "Dec" }
}

/// The decimal digits of `n`, zero-padded on the left to `w` digits.
pub open spec fn zpad(n: nat, w: nat) -> Seq<char> {
    let s = dec(n);
    if s.len() >= w {
        s
    } else {
        Seq::new((w - s.len()) as nat, |i: int| '0') + s
    }
}

fn push_dec64(out: &mut Vec<char>, n: u64)
    ensures
        final(out)@ == old(out)@ + dec(n as nat),
    decreases n,
{
    if n < 10 {
        out.push(digit_char_v(n as usize));
    } else {
        push_dec64(out, n / 10);
        out.push(digit_char_v((n % 10) as usize));
    }
}

fn push_zpad(out: &mut Vec<char>, n: u64, w: usize)
    ensures
        final(out)@ == old(out)@ + zpad(n as nat, w as nat),
{
    let mut digits: Vec<char> = Vec::new();
    push_dec64(&mut digits, n);
    assert(digits@ =~= dec(n as nat));
    let ghost start = out@;
    if digits.len() < w {
        let pad = w - digits.len();
        let mut k: usize = 0;
        while k < pad
            invariant
                k <= pad,
                out@ == start + Seq::new(k as nat, |i: int| '0'),
            decreases pad - k,
        {
            out.push('0');
            assert(Seq::new(k as nat + 1, |i: int| '0') =~= Seq::new(k as nat, |i: int| '0').push('0'));
            k += 1;
        }
    }
    push_all(out, &digits);
    proof {
        if digits.len() < w {
            assert(out@ =~= start + zpad(n as nat, w as nat));
        } else {
            assert(out@ =~= start + zpad(n as nat, w as nat));
        }
    }
}

/// `(datetime, display)` for a timestamp in seconds since the Unix
/// epoch, UTC: ISO `YYYY-MM-DD` for the `<time>` attribute, and the
/// medium en-US label ("Aug 13, 2026, 4:52:09 PM").
pub open spec fn spec_format_date(secs: nat) -> (Seq<char>, Seq<char>) {
    let (y, m, d) = spec_civil_from_days(secs as int / 86400);
    let day_secs = secs % 86400;
    let hh = day_secs / 3600;
    let mi = day_secs % 3600 / 60;
    let ss = day_secs % 60;
    let hour12: nat = if hh == 0 { 12 } else if hh > 12 { (hh - 12) as nat } else { hh };
    let suffix = if hh < 12 { "AM"@ } else { "PM"@ };
    (
        zpad(y as nat, 4) + "-"@ + zpad(m as nat, 2) + "-"@ + zpad(d as nat, 2),
        month_abbrev(m) + " "@ + dec(d as nat) + ", "@ + zpad(y as nat, 4) + ", "@ + dec(hour12) + ":"@
            + zpad(mi, 2) + ":"@ + zpad(ss, 2) + " "@ + suffix,
    )
}

proof fn lemma_civil_positive(z: int)
    requires
        0 <= z <= 0x1_0000_0000_0000,
    ensures
        spec_civil_from_days(z).0 >= 1600,
        1 <= spec_civil_from_days(z).1 <= 12,
        spec_civil_from_days(z).2 >= 1,
{
    let z2 = z + 719468;
    let era = z2 / 146097;
    assert(era >= 4);
    let doe = z2 - era * 146097;
    assert(0 <= doe < 146097);
    let yoe = (doe - doe / 1460 + doe / 36524 - doe / 146096) / 365;
    assert(yoe >= 0);
    let doy = doe - (365 * yoe + yoe / 4 - yoe / 100);
    let mp = (5 * doy + 2) / 153;
    assert((153 * mp + 2) / 5 <= doy);
}

pub fn format_date(secs: u64) -> (r: (String, String))
    ensures
        (r.0@, r.1@) == spec_format_date(secs as nat),
{
    let days: u64 = secs / 86400;
    let (y, m, d) = civil_from_days(days as i64);
    proof {
        lemma_civil_positive(days as int);
    }
    let day_secs: u64 = secs % 86400;
    let hh: u64 = day_secs / 3600;
    let mi: u64 = day_secs % 3600 / 60;
    let ss: u64 = day_secs % 60;
    let hour12: u64 = if hh == 0 { 12 } else if hh > 12 { hh - 12 } else { hh };
    let suffix = if hh < 12 { "AM" } else { "PM" };
    let mut iso: Vec<char> = Vec::new();
    push_zpad(&mut iso, y as u64, 4);
    push_str(&mut iso, "-");
    push_zpad(&mut iso, m as u64, 2);
    push_str(&mut iso, "-");
    push_zpad(&mut iso, d as u64, 2);
    let mut label = to_chars(month_abbrev_v(m));
    push_str(&mut label, " ");
    push_dec64(&mut label, d as u64);
    push_str(&mut label, ", ");
    push_zpad(&mut label, y as u64, 4);
    push_str(&mut label, ", ");
    push_dec64(&mut label, hour12);
    push_str(&mut label, ":");
    push_zpad(&mut label, mi, 2);
    push_str(&mut label, ":");
    push_zpad(&mut label, ss, 2);
    push_str(&mut label, " ");
    push_str(&mut label, suffix);
    proof {
        reveal_strlit("-");
        reveal_strlit(" ");
        reveal_strlit(", ");
        reveal_strlit(":");
        let (sy, sm, sd) = spec_civil_from_days(secs as int / 86400);
        assert(sy == y && sm == m && sd == d);
        assert(iso@ =~= spec_format_date(secs as nat).0);
        assert(label@ =~= spec_format_date(secs as nat).1);
    }
    (from_chars(&iso), from_chars(&label))
}

} // verus!
