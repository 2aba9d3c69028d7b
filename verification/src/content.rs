//! Content model: VitePress-format pages (`---` YAML front matter,
//! H1-derived titles), mapped to canonical URLs (`guide/x.md` →
//! `/guide/x/`, `index.md` → the directory root), plus the page set used
//! for sidebar derivation and rendering.
//!
//! URL scheme: every page gets a trailing-slash directory URL so the
//! static output is `url + "index.html"`. The config `base` is joined at
//! render time, not here.

use std::cmp::Ordering;

use vstd::prelude::*;

use crate::markdown::preprocess::{last_index_of, last_index_of_v, lemma_last_index_of};
use crate::text::{
    ix, nx,
    char_lowercase, run_len, spec_char_lowercase,
    ends_with, ends_with_v, eq_str, eq_v, from_chars, lemma_line_end_bounds, line_end, line_end_v, push_all, push_str,
    slice_of, split_lines, split_lines_v, starts_with, starts_with_str, to_chars,
    trim, trim_end, trim_end_v, trim_start, trim_start_v, trim_v,
};

verus! {

broadcast use vstd::string::group_string_axioms;

/// `outline: false` | `outline: deep` | `outline: 2` | `outline: [2, 3]`.
#[derive(Debug, Clone, Copy, PartialEq, Eq)]
pub enum OutlineSetting {
    Off,
    Deep,
    Level(u8),
    Range((u8, u8)),
}

/// `hero.image`: a path, `{ src, alt }`, or `{ light, dark, alt }`.
#[derive(Debug, Clone, PartialEq)]
pub enum HeroImage {
    Simple(String),
    Detailed { src: String, alt: Option<String> },
    Dual { light: String, dark: String, alt: Option<String> },
}

/// One hero call-to-action button.
#[derive(Debug, Clone, PartialEq)]
pub struct HeroAction {
    /// `brand` (default) | `alt`.
    pub theme: Option<String>,
    pub text: String,
    pub link: String,
    pub target: Option<String>,
    pub rel: Option<String>,
}

/// Home-page hero (`layout: home`).
#[derive(Debug, Clone, Default, PartialEq)]
pub struct Hero {
    pub name: Option<String>,
    pub text: Option<String>,
    pub tagline: Option<String>,
    pub image: Option<HeroImage>,
    pub actions: Vec<HeroAction>,
}

/// `features[].icon`: text/emoji, `{ src, alt, width, height }`, or
/// `{ light, dark, … }`.
#[derive(Debug, Clone, PartialEq)]
pub enum FeatureIcon {
    Text(String),
    Image { src: String, alt: Option<String>, width: Option<u32>, height: Option<u32> },
    Dual {
        light: String,
        dark: String,
        alt: Option<String>,
        width: Option<u32>,
        height: Option<u32>,
    },
}

/// One home-page feature card.
#[derive(Debug, Clone, Default, PartialEq)]
pub struct Feature {
    pub icon: Option<FeatureIcon>,
    pub title: String,
    pub details: Option<String>,
    pub link: Option<String>,
    pub link_text: Option<String>,
    pub target: Option<String>,
    pub rel: Option<String>,
}

/// A page's front matter. Unknown keys are tolerated and ignored.
#[derive(Debug, Clone, Default, PartialEq)]
pub struct PageFrontMatter {
    pub title: Option<String>,
    pub description: Option<String>,
    /// `doc` (default), `home`, `page`.
    pub layout: Option<String>,
    /// `deep` or a level/level-pair overriding the site outline depth.
    pub outline: Option<OutlineSetting>,
    /// The page's own `titleTemplate` (wins over the site's).
    pub title_template: Option<crate::config::TitleTemplate>,
    pub hero: Option<Hero>,
    pub features: Vec<Feature>,
}

/// One loaded page.
#[derive(Debug, Clone)]
pub struct Page {
    /// Path relative to the content root, `/`-separated
    /// (`guide/getting-started.md`).
    pub rel: String,
    /// Canonical base-free URL with trailing slash.
    pub url: String,
    /// Front-matter title, else the first H1's text, else the file stem.
    pub title: String,
    pub front: PageFrontMatter,
    /// Markdown body with the front matter block removed.
    pub body: String,
    /// Modification time, seconds since the Unix epoch (`lastUpdated`).
    pub modified: Option<u64>,
    /// Source path (diagnostics).
    pub src: String,
    /// Locale key from the site config (`"root"` when unassigned).
    pub locale: String,
}

impl Page {
    /// `layout: home` pages.
    pub fn is_home(&self) -> (b: bool)
        ensures
            b == (match self.front.layout {
                Some(l) => l@ == "home"@,
                None => false,
            }),
    {
        match &self.front.layout {
            Some(l) => {
                let v = to_chars(l.as_str());
                eq_str(&v, "home")
            },
            None => false,
        }
    }
}

/// Position of the first page whose URL is `url`, or -1.
pub open spec fn page_index(pages: Seq<Page>, url: Seq<char>) -> int
    decreases pages.len(),
{
    if pages.len() == 0 {
        -1
    } else if page_index(pages.drop_last(), url) >= 0 {
        page_index(pages.drop_last(), url)
    } else if pages.last().url@ == url {
        pages.len() - 1
    } else {
        -1
    }
}

pub proof fn lemma_page_index(pages: Seq<Page>, url: Seq<char>)
    ensures
        -1 <= page_index(pages, url) < pages.len(),
        page_index(pages, url) >= 0 ==> pages[page_index(pages, url)].url@ == url,
        forall|k: int|
            0 <= k < pages.len() && (page_index(pages, url) == -1 || k < page_index(pages, url))
                ==> #[trigger] pages[k].url@ != url,
    decreases pages.len(),
{
    if pages.len() > 0 {
        lemma_page_index(pages.drop_last(), url);
        assert forall|k: int|
            0 <= k < pages.len() && (page_index(pages, url) == -1 || k < page_index(pages, url))
                implies #[trigger] pages[k].url@ != url by {
            if k < pages.len() - 1 {
                assert(pages[k] == pages.drop_last()[k]);
            }
        }
    }
}

/// Position of the first page whose source path is `rel`, or -1.
pub open spec fn rel_index(pages: Seq<Page>, rel: Seq<char>) -> int
    decreases pages.len(),
{
    if pages.len() == 0 {
        -1
    } else if rel_index(pages.drop_last(), rel) >= 0 {
        rel_index(pages.drop_last(), rel)
    } else if pages.last().rel@ == rel {
        pages.len() - 1
    } else {
        -1
    }
}

pub proof fn lemma_rel_index(pages: Seq<Page>, rel: Seq<char>)
    ensures
        -1 <= rel_index(pages, rel) < pages.len(),
        rel_index(pages, rel) >= 0 ==> pages[rel_index(pages, rel)].rel@ == rel,
        forall|k: int|
            0 <= k < pages.len() && (rel_index(pages, rel) == -1 || k < rel_index(pages, rel))
                ==> #[trigger] pages[k].rel@ != rel,
    decreases pages.len(),
{
    if pages.len() > 0 {
        lemma_rel_index(pages.drop_last(), rel);
        assert forall|k: int|
            0 <= k < pages.len() && (rel_index(pages, rel) == -1 || k < rel_index(pages, rel))
                implies #[trigger] pages[k].rel@ != rel by {
            if k < pages.len() - 1 {
                assert(pages[k] == pages.drop_last()[k]);
            }
        }
    }
}

/// All pages of a site, in natural order of their URLs. Page URLs are
/// distinct in a loaded site.
#[derive(Debug, Clone, Default)]
pub struct Content {
    pub pages: Vec<Page>,
}

impl Content {
    /// The index of the page with canonical URL `url`.
    pub fn by_url(&self, url: &str) -> (r: Option<usize>)
        ensures
            match r {
                Some(i) => i == page_index(self.pages@, url@),
                None => page_index(self.pages@, url@) == -1,
            },
    {
        let target = to_chars(url);
        let mut i: usize = 0;
        proof {
            lemma_page_index(self.pages@, url@);
        }
        while i < self.pages.len()
            invariant
                i <= self.pages.len(),
                target@ == url@,
                -1 <= page_index(self.pages@, url@) < self.pages.len(),
                page_index(self.pages@, url@) >= 0 ==> self.pages@[page_index(self.pages@, url@)].url@ == url@,
                forall|k: int| 0 <= k < i ==> #[trigger] self.pages@[k].url@ != url@,
                forall|k: int|
                    0 <= k < self.pages.len() && (page_index(self.pages@, url@) == -1 || k < page_index(self.pages@, url@))
                        ==> #[trigger] self.pages@[k].url@ != url@,
            decreases self.pages.len() - i,
        {
            let u = to_chars(self.pages[i].url.as_str());
            if eq_v(&u, &target) {
                assert(page_index(self.pages@, url@) == i);
                return Some(i);
            }
            i += 1;
        }
        None
    }

    /// The index of the page whose source path is `rel`.
    pub fn by_rel(&self, rel: &str) -> (r: Option<usize>)
        ensures
            match r {
                Some(i) => i == rel_index(self.pages@, rel@),
                None => rel_index(self.pages@, rel@) == -1,
            },
    {
        let target = to_chars(rel);
        let mut i: usize = 0;
        proof {
            lemma_rel_index(self.pages@, rel@);
        }
        while i < self.pages.len()
            invariant
                i <= self.pages.len(),
                target@ == rel@,
                -1 <= rel_index(self.pages@, rel@) < self.pages.len(),
                rel_index(self.pages@, rel@) >= 0 ==> self.pages@[rel_index(self.pages@, rel@)].rel@ == rel@,
                forall|k: int| 0 <= k < i ==> #[trigger] self.pages@[k].rel@ != rel@,
                forall|k: int|
                    0 <= k < self.pages.len() && (rel_index(self.pages@, rel@) == -1 || k < rel_index(self.pages@, rel@))
                        ==> #[trigger] self.pages@[k].rel@ != rel@,
            decreases self.pages.len() - i,
        {
            let u = to_chars(self.pages[i].rel.as_str());
            if eq_v(&u, &target) {
                assert(rel_index(self.pages@, rel@) == i);
                return Some(i);
            }
            i += 1;
        }
        None
    }

    /// The page with canonical URL `url`.
    pub fn get(&self, url: &str) -> (r: Option<&Page>)
        ensures
            match r {
                Some(p) => page_index(self.pages@, url@) >= 0 && *p == self.pages@[page_index(
                    self.pages@,
                    url@,
                )],
                None => page_index(self.pages@, url@) == -1,
            },
    {
        match self.by_url(url) {
            Some(i) => {
                proof {
                    lemma_page_index(self.pages@, url@);
                }
                Some(&self.pages[i])
            },
            None => None,
        }
    }
}

/// Page URLs are pairwise distinct (as in every loaded site).
pub open spec fn distinct_urls(pages: Seq<Page>) -> bool {
    forall|j: int, k: int| 0 <= j < k < pages.len() ==> #[trigger] pages[j].url@ != #[trigger] pages[k].url@
}

/// Where page URLs are distinct, looking a page's URL up finds that very
/// page: `by_url` of `pages[i].url` is `i` for every page.
pub proof fn law_by_url_finds_each_page(pages: Seq<Page>, i: int)
    requires
        distinct_urls(pages),
        0 <= i < pages.len(),
    ensures
        page_index(pages, pages[i].url@) == i,
{
    lemma_page_index(pages, pages[i].url@);
    let pi = page_index(pages, pages[i].url@);
    if pi == -1 {
        assert(pages[i].url@ != pages[i].url@);
    } else if pi > i {
        assert(pages[i].url@ != pages[i].url@);
    } else if pi < i {
        assert(pages[pi].url@ != pages[i].url@);
    }
}

// ── URL mapping ────────────────────────────────────────────────────────

/// `s` without suffix `p` when it ends with it.
pub open spec fn strip_suffix_or_keep(s: Seq<char>, p: Seq<char>) -> Seq<char> {
    if ends_with(s, p) {
        s.take(s.len() - p.len())
    } else {
        s
    }
}

/// The canonical URL of a source-relative path: `index.md` → `/`,
/// `guide/index.md` → `/guide/`, `guide/x.md` → `/guide/x/`.
pub open spec fn spec_page_url(rel: Seq<char>) -> Seq<char> {
    let trimmed = strip_suffix_or_keep(strip_suffix_or_keep(rel, ".md"@), "/index"@);
    if trimmed == "index"@ || trimmed.len() == 0 {
        "/"@
    } else {
        "/"@ + trimmed + "/"@
    }
}

fn strip_suffix_v(s: &Vec<char>, p: &str) -> (r: Vec<char>)
    ensures
        r@ == strip_suffix_or_keep(s@, p@),
{
    let pv = to_chars(p);
    if ends_with_v(s, &pv) {
        slice_of(s, 0, s.len() - pv.len())
    } else {
        s.clone()
    }
}

pub fn page_url(rel: &str) -> (r: String)
    ensures
        r@ == spec_page_url(rel@),
{
    let v = to_chars(rel);
    let no_ext = strip_suffix_v(&v, ".md");
    let trimmed = strip_suffix_v(&no_ext, "/index");
    if eq_str(&trimmed, "index") || trimmed.len() == 0 {
        return String::from_str("/");
    }
    let mut out = to_chars("/");
    push_all(&mut out, &trimmed);
    push_str(&mut out, "/");
    from_chars(&out)
}

// ── front matter ───────────────────────────────────────────────────────

/// The `---` line closing the front matter, searched from position `i`:
/// (start, end) of that line.
pub open spec fn fm_close(s: Seq<char>, i: int) -> Option<(int, int)>
    decreases s.len() - i,
{
    if i < 0 || i >= s.len() {
        None
    } else {
        let e = line_end(s, i);
        proof {
            lemma_line_end_bounds(s, i);
        }
        if trim_end(s.subrange(i, e)) == "---"@ {
            Some((i, e))
        } else {
            fm_close(s, e)
        }
    }
}

/// Split a leading `---` YAML front matter block: (trimmed yaml, body).
/// No opener, or an opener never closed, leaves the text as body.
pub open spec fn spec_split_front_matter(raw: Seq<char>) -> (Option<Seq<char>>, Seq<char>) {
    if raw.len() == 0 {
        (None, raw)
    } else {
        let e0 = line_end(raw, 0);
        if trim_end(raw.subrange(0, e0)) != "---"@ {
            (None, raw)
        } else {
            match fm_close(raw, e0) {
                Some((i, e)) => (Some(trim(raw.subrange(e0, i))), raw.skip(e)),
                None => (None, raw),
            }
        }
    }
}

pub fn split_front_matter(raw: &str) -> (r: (Option<String>, String))
    ensures
        ({
            let (y, b) = spec_split_front_matter(raw@);
            &&& r.1@ == b
            &&& match r.0 {
                Some(x) => y == Some(x@),
                None => y is None,
            }
        }),
{
    let v = to_chars(raw);
    if v.len() == 0 {
        return (None, String::from_str(raw));
    }
    let e0 = line_end_v(&v, 0);
    let first = slice_of(&v, 0, e0);
    let ft = trim_end_v(&first);
    if !eq_str(&ft, "---") {
        return (None, String::from_str(raw));
    }
    let mut i: usize = e0;
    while i < v.len()
        invariant
            e0 <= i <= v.len(),
            v@ == raw@,
            v.len() > 0,
            e0 == line_end(v@, 0),
            trim_end(v@.subrange(0, e0 as int)) == "---"@,
            fm_close(v@, e0 as int) == fm_close(v@, i as int),
        decreases v.len() - i,
    {
        let e = line_end_v(&v, i);
        let line = slice_of(&v, i, e);
        let lt = trim_end_v(&line);
        if eq_str(&lt, "---") {
            assert(fm_close(v@, i as int) == Some((i as int, e as int)));
            let yaml = slice_of(&v, e0, i);
            let yt = trim_v(&yaml);
            let body = slice_of(&v, e, v.len());
            assert(body@ =~= v@.skip(e as int));
            assert(spec_split_front_matter(raw@) == (Some(trim(v@.subrange(e0 as int, i as int))), v@.skip(e as int)));
            return (Some(from_chars(&yt)), from_chars(&body));
        }
        i = e;
    }
    (None, String::from_str(raw))
}

// ── titles ─────────────────────────────────────────────────────────────

/// `str::lines`: `\n`-terminated pieces without the `\n` and one `\r`.
pub open spec fn strip_line_end(l: Seq<char>) -> Seq<char> {
    let a = if l.len() > 0 && l.last() == '\n' {
        l.drop_last()
    } else {
        l
    };
    if a.len() > 0 && a.last() == '\r' {
        a.drop_last()
    } else {
        a
    }
}

/// Remove a trailing `{#id}` attribute block.
pub open spec fn spec_strip_heading_attrs(text: Seq<char>) -> Seq<char> {
    let i = last_index_of(text, '{');
    if i >= 0 && text.len() > 0 && text.last() == '}' && starts_with(text.skip(i + 1), "#"@) {
        text.take(i)
    } else {
        text
    }
}

/// Text with everything between `<` and `>` removed.
pub open spec fn strip_tags_scan(text: Seq<char>) -> (Seq<char>, bool)
    decreases text.len(),
{
    if text.len() == 0 {
        (Seq::empty(), false)
    } else {
        let (out, in_tag) = strip_tags_scan(text.drop_last());
        let c = text.last();
        if c == '<' {
            (out, true)
        } else if c == '>' {
            (out, false)
        } else if !in_tag {
            (out.push(c), in_tag)
        } else {
            (out, in_tag)
        }
    }
}

pub open spec fn spec_strip_html_tags(text: Seq<char>) -> Seq<char> {
    strip_tags_scan(text).0
}

/// The H1 scan from line `k`: the first `# ` heading before any code
/// fence, with inline tags and a trailing `{#id}` removed.
pub open spec fn h1_scan(lines: Seq<Seq<char>>, k: int) -> Option<Seq<char>>
    decreases lines.len() - k,
{
    if k < 0 || k >= lines.len() {
        None
    } else {
        let t = trim_start(strip_line_end(lines[k]));
        if starts_with(t, "```"@) || starts_with(t, "~~~"@) {
            None
        } else if starts_with(t, "# "@) {
            let rest = trim(t.skip(2));
            if rest.len() == 0 {
                None
            } else {
                Some(trim(spec_strip_html_tags(spec_strip_heading_attrs(rest))))
            }
        } else {
            h1_scan(lines, k + 1)
        }
    }
}

/// First H1's display text (headings after the first fence belong to
/// examples).
pub open spec fn spec_extract_h1(body: Seq<char>) -> Option<Seq<char>> {
    h1_scan(split_lines(body), 0)
}

fn strip_line_end_v(l: &Vec<char>) -> (r: Vec<char>)
    ensures
        r@ == strip_line_end(l@),
{
    let a = if l.len() > 0 && l[l.len() - 1] == '\n' {
        slice_of(l, 0, l.len() - 1)
    } else {
        l.clone()
    };
    assert(l.len() > 0 && l@.last() == '\n' ==> a@ =~= l@.drop_last());
    if a.len() > 0 && a[a.len() - 1] == '\r' {
        let b = slice_of(&a, 0, a.len() - 1);
        assert(b@ =~= a@.drop_last());
        b
    } else {
        a
    }
}

fn strip_heading_attrs(text: &Vec<char>) -> (r: Vec<char>)
    ensures
        r@ == spec_strip_heading_attrs(text@),
{
    let li = last_index_of_v(text, '{');
    proof {
        lemma_last_index_of(text@, '{');
    }
    if let Some(i) = li {
        if text.len() > 0 && text[text.len() - 1] == '}' {
            let tail = slice_of(text, i + 1, text.len());
            assert(tail@ =~= text@.skip(i + 1));
            if starts_with_str(&tail, "#") {
                let h = slice_of(text, 0, i);
                assert(h@ =~= text@.take(i as int));
                return h;
            }
        }
    }
    text.clone()
}

fn strip_html_tags(text: &Vec<char>) -> (r: Vec<char>)
    ensures
        r@ == spec_strip_html_tags(text@),
{
    let mut out: Vec<char> = Vec::new();
    let mut in_tag = false;
    let mut i: usize = 0;
    assert(text@.take(0) =~= Seq::<char>::empty());
    while i < text.len()
        invariant
            i <= text.len(),
            (out@, in_tag) == strip_tags_scan(text@.take(i as int)),
        decreases text.len() - i,
    {
        proof {
            assert(text@.take(i + 1).drop_last() =~= text@.take(i as int));
        }
        let c = text[i];
        if c == '<' {
            in_tag = true;
        } else if c == '>' {
            in_tag = false;
        } else if !in_tag {
            out.push(c);
        }
        i += 1;
    }
    assert(text@.take(text.len() as int) =~= text@);
    out
}

pub fn extract_h1(body: &str) -> (r: Option<String>)
    ensures
        match r {
            Some(t) => spec_extract_h1(body@) == Some(t@),
            None => spec_extract_h1(body@) is None,
        },
{
    let v = to_chars(body);
    let lines = split_lines_v(&v);
    let ghost ls = split_lines(v@);
    let mut k: usize = 0;
    while k < lines.len()
        invariant
            k <= lines.len(),
            lines.len() == ls.len(),
            ls == split_lines(v@),
            forall|j: int| 0 <= j < lines.len() ==> (#[trigger] lines@[j])@ == ls[j],
            h1_scan(ls, k as int) == spec_extract_h1(body@),
        decreases lines.len() - k,
    {
        let line = strip_line_end_v(&lines[k]);
        assert(lines@[k as int]@ == ls[k as int]);
        let t = trim_start_v(&line);
        if starts_with_str(&t, "```") || starts_with_str(&t, "~~~") {
            return None;
        }
        if starts_with_str(&t, "# ") {
            proof {
                reveal_strlit("# ");
            }
            let after = slice_of(&t, 2, t.len());
            assert(after@ =~= t@.skip(2));
            let rest = trim_v(&after);
            if rest.len() == 0 {
                return None;
            }
            let no_attr = strip_heading_attrs(&rest);
            let plain = strip_html_tags(&no_attr);
            let out = trim_v(&plain);
            return Some(from_chars(&out));
        }
        k += 1;
    }
    None
}


// ── source exclusion globs ─────────────────────────────────────────────

/// `srcExclude` glob: `*` matches within a path segment (never a `/`),
/// `**` across segments, anything else matches literally; the whole
/// path must match.
pub open spec fn glob(p: Seq<char>, s: Seq<char>) -> bool
    decreases p.len(), 0int,
{
    if p.len() == 0 {
        s.len() == 0
    } else if p[0] == '*' && p.len() > 1 && p[1] == '*' {
        glob_any(p.skip(2), s, 0)
    } else if p[0] == '*' {
        glob_segment(p.skip(1), s, 0)
    } else {
        s.len() > 0 && s[0] == p[0] && glob(p.skip(1), s.skip(1))
    }
}

/// `q` matches `s[i..]` or a later suffix of `s` (`**`).
pub open spec fn glob_any(q: Seq<char>, s: Seq<char>, i: int) -> bool
    decreases q.len(), s.len() + 1 - i,
{
    if i < 0 || i > s.len() {
        false
    } else {
        glob(q, s.skip(i)) || glob_any(q, s, i + 1)
    }
}

/// `q` matches `s[i..]` or a later suffix reached without crossing a
/// `/` (`*`).
pub open spec fn glob_segment(q: Seq<char>, s: Seq<char>, i: int) -> bool
    decreases q.len(), s.len() + 1 - i,
{
    if i < 0 || i > s.len() {
        false
    } else if i > 0 && s[i - 1] == '/' {
        false
    } else {
        glob(q, s.skip(i)) || glob_segment(q, s, i + 1)
    }
}

fn glob_go(p: &Vec<char>, pi: usize, s: &Vec<char>, si: usize) -> (b: bool)
    requires
        pi <= p.len(),
        si <= s.len(),
    ensures
        b == glob(p@.skip(ix(pi)), s@.skip(ix(si))),
    decreases p.len() - pi,
{
    let ghost ps = p@.skip(ix(pi));
    let ghost ss = s@.skip(ix(si));
    if pi == p.len() {
        assert(ps.len() == 0);
        return si == s.len();
    }
    assert(ps[0] == p@[ix(pi)]);
    let rem: usize = s.len() - si;
    let double = p[pi] == '*' && pi + 1 < p.len() && p[pi + 1] == '*';
    if p[pi] == '*' {
        let skip: usize = if double {
            2
        } else {
            1
        };
        proof {
            if double {
                assert(ps[1] == p@[pi + 1]);
            }
        }
        assert(ps.skip(ix(skip)) =~= p@.skip(pi + skip));
        let ghost q = ps.skip(ix(skip));
        let mut i: usize = 0;
        loop
            invariant
                si <= s.len(),
                rem == s.len() - si,
                pi + skip <= p.len(),
                ps == p@.skip(ix(pi)),
                ss == s@.skip(ix(si)),
                ss.len() == rem,
                q == p@.skip(pi + skip),
                i <= rem,
                double ==> glob(ps, ss) == glob_any(q, ss, ix(i)),
                !double ==> glob(ps, ss) == glob_segment(q, ss, ix(i)),
                pi < p.len(),
                skip >= 1,
            decreases rem - i,
        {
            if !double && i > 0 && s[si + i - 1] == '/' {
                assert(ss[i - 1] == s@[si + i - 1]);
                return false;
            }
            let r = glob_go(p, pi + skip, s, si + i);
            assert(ss.skip(ix(i)) =~= s@.skip(si + i));
            if r {
                return true;
            }
            if i == rem {
                assert(glob_any(q, ss, i + 1) == false);
                assert(glob_segment(q, ss, i + 1) == false);
                return false;
            }
            proof {
                assert(ss[ix(i)] == s@[si + i]);
            }
            i += 1;
        }
    }
    if si < s.len() && s[si] == p[pi] {
        assert(ps.skip(1) =~= p@.skip(pi + 1));
        assert(ss.skip(1) =~= s@.skip(si + 1));
        assert(ss[0] == s@[ix(si)]);
        glob_go(p, pi + 1, s, si + 1)
    } else {
        proof {
            if si < s.len() {
                assert(ss[0] == s@[ix(si)]);
            }
        }
        false
    }
}

/// Does the `srcExclude` pattern match the source-relative path?
pub fn glob_match(pattern: &str, path: &str) -> (b: bool)
    ensures
        b == glob(pattern@, path@),
{
    let p = to_chars(pattern);
    let s = to_chars(path);
    assert(p@.skip(0) =~= p@);
    assert(s@.skip(0) =~= s@);
    glob_go(&p, 0, &s, 0)
}

// ── natural order ──────────────────────────────────────────────────────

pub open spec fn is_digit(c: char) -> bool {
    '0' <= c && c <= '9'
}

/// Length of the ASCII digit run starting at `i`.
pub open spec fn digit_run(s: Seq<char>, i: int) -> nat
    decreases s.len() - i,
{
    if 0 <= i < s.len() && is_digit(s[i]) {
        1 + digit_run(s, i + 1)
    } else {
        0
    }
}

/// Lexicographic order by code point (`Ord` for `str` / char iterators).
pub open spec fn seq_order(a: Seq<char>, b: Seq<char>) -> Ordering
    decreases a.len(),
{
    if a.len() == 0 && b.len() == 0 {
        Ordering::Equal
    } else if a.len() == 0 {
        Ordering::Less
    } else if b.len() == 0 {
        Ordering::Greater
    } else if a[0] < b[0] {
        Ordering::Less
    } else if a[0] > b[0] {
        Ordering::Greater
    } else {
        seq_order(a.drop_first(), b.drop_first())
    }
}

pub open spec fn nat_order(x: nat, y: nat) -> Ordering {
    if x < y {
        Ordering::Less
    } else if x > y {
        Ordering::Greater
    } else {
        Ordering::Equal
    }
}

/// `Ordering::then`.
pub open spec fn then_order(first: Ordering, second: Ordering) -> Ordering {
    if first == Ordering::Equal {
        second
    } else {
        first
    }
}

pub open spec fn reverse_order(o: Ordering) -> Ordering {
    match o {
        Ordering::Less => Ordering::Greater,
        Ordering::Greater => Ordering::Less,
        Ordering::Equal => Ordering::Equal,
    }
}

/// A digit run without its leading zeros.
pub open spec fn strip_zeros(s: Seq<char>) -> Seq<char> {
    s.skip(run_len(s, '0') as int)
}

/// Two digit runs by value: fewer significant digits first, then the
/// digits, then the shorter zero-padded form first.
pub open spec fn digits_order(an: Seq<char>, bn: Seq<char>) -> Ordering {
    then_order(
        nat_order(strip_zeros(an).len(), strip_zeros(bn).len()),
        then_order(
            seq_order(strip_zeros(an), strip_zeros(bn)),
            nat_order(an.len(), bn.len()),
        ),
    )
}

/// Natural order of `a[i..]` against `b[j..]`: digit runs compare by
/// value, other characters by their lowercase forms.
pub open spec fn natural_from(a: Seq<char>, b: Seq<char>, i: int, j: int) -> Ordering
    decreases a.len() - i + b.len() - j,
{
    if i < 0 || j < 0 {
        Ordering::Equal
    } else if i >= a.len() && j >= b.len() {
        Ordering::Equal
    } else if i >= a.len() {
        Ordering::Less
    } else if j >= b.len() {
        Ordering::Greater
    } else if is_digit(a[i]) && is_digit(b[j]) {
        let an = a.subrange(i, i + digit_run(a, i));
        let bn = b.subrange(j, j + digit_run(b, j));
        let ord = digits_order(an, bn);
        if ord != Ordering::Equal {
            ord
        } else {
            proof {
                lemma_digit_run(a, i);
                lemma_digit_run(b, j);
            }
            natural_from(a, b, i + digit_run(a, i), j + digit_run(b, j))
        }
    } else {
        let ord = seq_order(spec_char_lowercase(a[i]), spec_char_lowercase(b[j]));
        if ord != Ordering::Equal {
            ord
        } else {
            natural_from(a, b, i + 1, j + 1)
        }
    }
}

/// Case-insensitive natural order ("a2" < "a10").
pub open spec fn natural_order_of(a: Seq<char>, b: Seq<char>) -> Ordering {
    natural_from(a, b, 0, 0)
}

pub proof fn lemma_digit_run(s: Seq<char>, i: int)
    requires
        0 <= i,
    ensures
        i + digit_run(s, i) <= s.len() || digit_run(s, i) == 0,
        forall|k: int| i <= k < i + digit_run(s, i) ==> is_digit(#[trigger] s[k]),
        i + digit_run(s, i) < s.len() ==> !is_digit(s[i + digit_run(s, i)]),
    decreases s.len() - i,
{
    if 0 <= i < s.len() && is_digit(s[i]) {
        lemma_digit_run(s, i + 1);
    }
}

fn digit_run_v(s: &Vec<char>, i: usize) -> (n: usize)
    requires
        i <= s.len(),
    ensures
        n == digit_run(s@, ix(i)),
        i + n <= s.len(),
{
    let mut k: usize = i;
    while k < s.len() && '0' <= s[k] && s[k] <= '9'
        invariant
            i <= k <= s.len(),
            digit_run(s@, ix(i)) == (k - i) + digit_run(s@, ix(k)),
        decreases s.len() - k,
    {
        k += 1;
    }
    k - i
}

fn seq_order_v(a: &Vec<char>, b: &Vec<char>) -> (o: Ordering)
    ensures
        o == seq_order(a@, b@),
{
    let mut k: usize = 0;
    assert(a@.skip(0) =~= a@);
    assert(b@.skip(0) =~= b@);
    while k < a.len() && k < b.len() && a[k] == b[k]
        invariant
            k <= a.len(),
            k <= b.len(),
            seq_order(a@, b@) == seq_order(a@.skip(ix(k)), b@.skip(ix(k))),
        decreases a.len() - k,
    {
        assert(a@.skip(ix(k)).drop_first() =~= a@.skip(k + 1));
        assert(b@.skip(ix(k)).drop_first() =~= b@.skip(k + 1));
        k += 1;
    }
    if k == a.len() && k == b.len() {
        Ordering::Equal
    } else if k == a.len() {
        Ordering::Less
    } else if k == b.len() {
        Ordering::Greater
    } else if a[k] < b[k] {
        Ordering::Less
    } else {
        Ordering::Greater
    }
}

fn nat_order_v(x: usize, y: usize) -> (o: Ordering)
    ensures
        o == nat_order(nx(x), nx(y)),
{
    if x < y {
        Ordering::Less
    } else if x > y {
        Ordering::Greater
    } else {
        Ordering::Equal
    }
}

/// Case-insensitive natural sort order ("a2" < "a10"): runs of ASCII
/// digits compare by numeric value, other characters by their lowercase
/// forms.
pub fn natural_cmp(a: &str, b: &str) -> (o: Ordering)
    ensures
        o == natural_order_of(a@, b@),
{
    let av = to_chars(a);
    let bv = to_chars(b);
    let mut i: usize = 0;
    let mut j: usize = 0;
    loop
        invariant
            i <= av.len(),
            j <= bv.len(),
            natural_from(av@, bv@, ix(i), ix(j)) == natural_order_of(a@, b@),
        decreases av.len() - i + bv.len() - j,
    {
        if i >= av.len() && j >= bv.len() {
            return Ordering::Equal;
        } else if i >= av.len() {
            return Ordering::Less;
        } else if j >= bv.len() {
            return Ordering::Greater;
        }
        let x = av[i];
        let y = bv[j];
        if '0' <= x && x <= '9' && '0' <= y && y <= '9' {
            let na = digit_run_v(&av, i);
            let nb = digit_run_v(&bv, j);
            let an = slice_of(&av, i, i + na);
            let bn = slice_of(&bv, j, j + nb);
            let za = zero_run_v(&an);
            let zb = zero_run_v(&bn);
            let sa = slice_of(&an, za, an.len());
            let sb = slice_of(&bn, zb, bn.len());
            assert(sa@ =~= strip_zeros(an@));
            assert(sb@ =~= strip_zeros(bn@));
            let o1 = nat_order_v(sa.len(), sb.len());
            let ord = match o1 {
                Ordering::Equal => {
                    let o2 = seq_order_v(&sa, &sb);
                    match o2 {
                        Ordering::Equal => nat_order_v(an.len(), bn.len()),
                        _ => o2,
                    }
                },
                _ => o1,
            };
            proof {
                lemma_digit_run(av@, ix(i));
                lemma_digit_run(bv@, ix(j));
                assert(is_digit(av@[ix(i)]) && is_digit(bv@[ix(j)]));
                assert(ord == digits_order(an@, bn@));
            }
            if !is_equal(ord) {
                return ord;
            }
            i += na;
            j += nb;
        } else {
            let lx = char_lowercase(x);
            let ly = char_lowercase(y);
            let ord = seq_order_v(&lx, &ly);
            proof {
                assert(!(is_digit(av@[ix(i)]) && is_digit(bv@[ix(j)])));
                assert(ord == seq_order(spec_char_lowercase(av@[ix(i)]), spec_char_lowercase(bv@[ix(j)])));
            }
            if !is_equal(ord) {
                return ord;
            }
            i += 1;
            j += 1;
        }
    }
}

fn is_equal(o: Ordering) -> (b: bool)
    ensures
        b == (o == Ordering::Equal),
{
    match o {
        Ordering::Equal => true,
        _ => false,
    }
}

fn zero_run_v(v: &Vec<char>) -> (n: usize)
    ensures
        n == run_len(v@, '0'),
        n <= v.len(),
{
    crate::text::run_len_v(v, '0')
}

// ── laws of the natural order ──────────────────────────────────────────

proof fn lemma_seq_order_antisym(a: Seq<char>, b: Seq<char>)
    ensures
        seq_order(b, a) == reverse_order(seq_order(a, b)),
    decreases a.len(),
{
    if a.len() > 0 && b.len() > 0 && a[0] == b[0] {
        lemma_seq_order_antisym(a.drop_first(), b.drop_first());
    }
}

proof fn lemma_seq_order_refl(a: Seq<char>)
    ensures
        seq_order(a, a) == Ordering::Equal,
    decreases a.len(),
{
    if a.len() > 0 {
        lemma_seq_order_refl(a.drop_first());
    }
}

proof fn lemma_natural_from_antisym(a: Seq<char>, b: Seq<char>, i: int, j: int)
    requires
        0 <= i,
        0 <= j,
    ensures
        natural_from(b, a, j, i) == reverse_order(natural_from(a, b, i, j)),
    decreases a.len() - i + b.len() - j,
{
    if i < a.len() && j < b.len() {
        if is_digit(a[i]) && is_digit(b[j]) {
            let an = a.subrange(i, i + digit_run(a, i));
            let bn = b.subrange(j, j + digit_run(b, j));
            lemma_seq_order_antisym(strip_zeros(an), strip_zeros(bn));
            lemma_digit_run(a, i);
            lemma_digit_run(b, j);
            lemma_natural_from_antisym(a, b, i + digit_run(a, i), j + digit_run(b, j));
        } else {
            lemma_seq_order_antisym(spec_char_lowercase(a[i]), spec_char_lowercase(b[j]));
            lemma_natural_from_antisym(a, b, i + 1, j + 1);
        }
    }
}

/// Law: the natural order is antisymmetric — comparing `b` with `a`
/// gives the reverse of comparing `a` with `b`.
pub proof fn law_natural_cmp_antisymmetric(a: Seq<char>, b: Seq<char>)
    ensures
        natural_order_of(b, a) == reverse_order(natural_order_of(a, b)),
{
    lemma_natural_from_antisym(a, b, 0, 0);
}

proof fn lemma_natural_from_refl(a: Seq<char>, i: int)
    requires
        0 <= i,
    ensures
        natural_from(a, a, i, i) == Ordering::Equal,
    decreases a.len() - i,
{
    if i < a.len() {
        if is_digit(a[i]) {
            let an = a.subrange(i, i + digit_run(a, i));
            lemma_seq_order_refl(strip_zeros(an));
            lemma_digit_run(a, i);
            lemma_natural_from_refl(a, i + digit_run(a, i));
        } else {
            lemma_seq_order_refl(spec_char_lowercase(a[i]));
            lemma_natural_from_refl(a, i + 1);
        }
    }
}

/// Law: every text is naturally equal to itself.
pub proof fn law_natural_cmp_reflexive(a: Seq<char>)
    ensures
        natural_order_of(a, a) == Ordering::Equal,
{
    lemma_natural_from_refl(a, 0);
}


// ── stable natural sort ────────────────────────────────────────────────

/// `x` placed into `s` after every element that does not sort after it
/// (the step of a stable insertion sort under the natural order of
/// `key`).
pub open spec fn insert_by<T>(s: Seq<T>, x: T, key: spec_fn(T) -> Seq<char>) -> Seq<T>
    decreases s.len(),
{
    if s.len() == 0 {
        seq![x]
    } else if natural_order_of(key(s.last()), key(x)) == Ordering::Greater {
        insert_by(s.drop_last(), x, key).push(s.last())
    } else {
        s.push(x)
    }
}

/// `s` stably sorted by the natural order of `key` (`slice::sort_by`
/// with `natural_cmp`).
pub open spec fn sort_by_key<T>(s: Seq<T>, key: spec_fn(T) -> Seq<char>) -> Seq<T>
    decreases s.len(),
{
    if s.len() == 0 {
        s
    } else {
        insert_by(sort_by_key(s.drop_last(), key), s.last(), key)
    }
}

/// Inserting at the position found by scanning back over the elements
/// that sort after `x`.
pub proof fn lemma_insert_by_at<T>(s: Seq<T>, x: T, key: spec_fn(T) -> Seq<char>, j: int)
    requires
        0 <= j <= s.len(),
        forall|k: int| j <= k < s.len() ==> natural_order_of(key(#[trigger] s[k]), key(x)) == Ordering::Greater,
        j == 0 || natural_order_of(key(s[j - 1]), key(x)) != Ordering::Greater,
    ensures
        insert_by(s, x, key) == s.take(j).push(x) + s.skip(j),
    decreases s.len(),
{
    if s.len() == 0 {
        assert(s.take(j).push(x) + s.skip(j) =~= seq![x]);
    } else if j == s.len() {
        assert(s.take(j).push(x) + s.skip(j) =~= s.push(x));
    } else {
        let d = s.drop_last();
        assert forall|k: int| j <= k < d.len() implies natural_order_of(key(#[trigger] d[k]), key(x))
            == Ordering::Greater by {
            assert(d[k] == s[k]);
        }
        if j > 0 {
            assert(d[j - 1] == s[j - 1]);
        }
        lemma_insert_by_at(d, x, key, j);
        assert(d.take(j).push(x) + d.skip(j) + seq![s.last()] =~= s.take(j).push(x) + s.skip(j));
        assert(insert_by(d, x, key).push(s.last()) =~= insert_by(d, x, key) + seq![s.last()]);
    }
}

/// The key pages are ordered by in a loaded site.
pub open spec fn url_key() -> spec_fn(Page) -> Seq<char> {
    |p: Page| p.url@
}

fn is_greater(o: Ordering) -> (b: bool)
    ensures
        b == (o == Ordering::Greater),
{
    match o {
        Ordering::Greater => true,
        _ => false,
    }
}

/// Pages stably sorted by the natural order of their URLs.
fn sort_pages_by_url(pages: Vec<Page>) -> (r: Vec<Page>)
    ensures
        r@ == sort_by_key(pages@, url_key()),
{
    let ghost all = pages@;
    let mut src = pages;
    let total: usize = src.len();
    let mut out: Vec<Page> = Vec::new();
    let mut k: usize = 0;
    assert(all.take(0) =~= Seq::<Page>::empty());
    assert(all.skip(0) =~= all);
    while src.len() > 0
        invariant
            k <= all.len(),
            all.len() == k + src.len(),
            all.len() == total,
            src@ == all.skip(ix(k)),
            out@ == sort_by_key(all.take(ix(k)), url_key()),
        decreases src.len(),
    {
        let x = src.remove(0);
        assert(x == all[ix(k)]);
        let mut j: usize = out.len();
        while j > 0 && is_greater(natural_cmp(out[j - 1].url.as_str(), x.url.as_str()))
            invariant
                j <= out.len(),
                forall|m: int|
                    j <= m < out.len() ==> natural_order_of(#[trigger] out@[m].url@, x.url@)
                        == Ordering::Greater,
            decreases j,
        {
            j -= 1;
        }
        proof {
            let key = url_key();
            assert forall|m: int| j <= m < out.len() implies natural_order_of(key(#[trigger] out@[m]), key(x))
                == Ordering::Greater by {
                assert(key(out@[m]) == out@[m].url@);
            }
            if j > 0 {
                assert(key(out@[j - 1]) == out@[j - 1].url@);
            }
            lemma_insert_by_at(out@, x, key, ix(j));
            assert(all.take(ix(k) + 1).drop_last() =~= all.take(ix(k)));
            assert(all.take(ix(k) + 1).last() == x);
            assert(out@.insert(ix(j), x) =~= out@.take(ix(j)).push(x) + out@.skip(ix(j)));
            assert(all.skip(ix(k) + 1) =~= all.skip(ix(k)).remove(0));
        }
        out.insert(j, x);
        k += 1;
    }
    assert(all.take(ix(k)) =~= all);
    out
}


// ── assembling the page set ────────────────────────────────────────────

/// `s` with every trailing repetition of `p` removed
/// (`str::trim_end_matches`).
pub open spec fn trim_suffix_all(s: Seq<char>, p: Seq<char>) -> Seq<char>
    decreases s.len(),
{
    if p.len() > 0 && ends_with(s, p) {
        trim_suffix_all(s.take(s.len() - p.len()), p)
    } else {
        s
    }
}

/// The file stem a title falls back to: the path without `.md`,
/// `index` and `/` tails.
pub open spec fn title_stem(rel: Seq<char>) -> Seq<char> {
    trim_suffix_all(trim_suffix_all(trim_suffix_all(rel, ".md"@), "index"@), "/"@)
}

/// The last `/`-separated segment.
pub open spec fn last_segment(s: Seq<char>) -> Seq<char> {
    s.skip(last_index_of(s, '/') + 1)
}

/// A page's title: the front-matter title, else the first H1's text,
/// else the last segment of the file stem.
pub open spec fn spec_page_title(front_title: Option<Seq<char>>, body: Seq<char>, rel: Seq<char>) -> Seq<char> {
    match front_title {
        Some(t) => t,
        None => match spec_extract_h1(body) {
            Some(h) => h,
            None => last_segment(title_stem(rel)),
        },
    }
}

pub(crate) fn trim_suffix_all_v(s: Vec<char>, p: &str) -> (r: Vec<char>)
    ensures
        r@ == trim_suffix_all(s@, p@),
    decreases s.len(),
{
    let pv = to_chars(p);
    if pv.len() > 0 && ends_with_v(&s, &pv) {
        let cut = slice_of(&s, 0, s.len() - pv.len());
        assert(cut@ =~= s@.take(s@.len() - p@.len()));
        trim_suffix_all_v(cut, p)
    } else {
        s
    }
}

/// Title derivation for a loaded page.
pub fn page_title(front_title: &Option<String>, body: &str, rel: &str) -> (r: String)
    ensures
        r@ == spec_page_title(
            match front_title {
                Some(t) => Some(t@),
                None => None,
            },
            body@,
            rel@,
        ),
{
    match front_title {
        Some(t) => t.clone(),
        None => match extract_h1(body) {
            Some(h) => h,
            None => {
                let v = to_chars(rel);
                let a = trim_suffix_all_v(v, ".md");
                let b = trim_suffix_all_v(a, "index");
                let stem = trim_suffix_all_v(b, "/");
                proof {
                    lemma_last_index_of(stem@, '/');
                }
                let start: usize = match last_index_of_v(&stem, '/') {
                    Some(i) => i + 1,
                    None => 0,
                };
                let seg = slice_of(&stem, start, stem.len());
                assert(seg@ =~= last_segment(stem@));
                from_chars(&seg)
            },
        },
    }
}

/// Whether some `srcExclude` pattern matches a source-relative path.
pub open spec fn excluded_by(patterns: Seq<String>, rel: Seq<char>) -> bool {
    exists|k: int| 0 <= k < patterns.len() && glob(#[trigger] patterns[k]@, rel)
}

pub fn is_excluded(patterns: &Vec<String>, rel: &str) -> (b: bool)
    ensures
        b == excluded_by(patterns@, rel@),
{
    let mut k: usize = 0;
    while k < patterns.len()
        invariant
            k <= patterns.len(),
            forall|m: int| 0 <= m < k ==> !glob(#[trigger] patterns@[m]@, rel@),
        decreases patterns.len() - k,
    {
        if glob_match(patterns[k].as_str(), rel) {
            assert(glob(patterns@[ix(k)]@, rel@));
            return true;
        }
        k += 1;
    }
    false
}

/// A page from its source: URL and title derived from the relative path,
/// the front matter and the body, with the default locale.
pub fn build_page(rel: &str, front: PageFrontMatter, body: &str, modified: Option<u64>, src: String) -> (p: Page)
    ensures
        p.rel@ == rel@,
        p.url@ == spec_page_url(rel@),
        p.title@ == spec_page_title(
            match front.title {
                Some(t) => Some(t@),
                None => None,
            },
            body@,
            rel@,
        ),
        p.front == front,
        p.body@ == body@,
        p.modified == modified,
        p.src == src,
        p.locale@ == "root"@,
{
    let title = page_title(&front.title, body, rel);
    Page {
        rel: String::from_str(rel),
        url: page_url(rel),
        title,
        front,
        body: String::from_str(body),
        modified,
        src,
        locale: String::from_str("root"),
    }
}

/// Why a page set cannot be loaded.
#[derive(Debug)]
pub enum ContentError {
    /// A file or directory could not be read.
    Read { path: String, message: String },
    /// A page's front matter is not valid YAML for its fields.
    FrontMatter { path: String, message: String },
    /// Two pages map to the same URL.
    Duplicate { url: String },
}

/// The index of the first page (in load order) whose URL an earlier page
/// already has, or -1.
pub open spec fn first_duplicate(pages: Seq<Page>) -> int
    decreases pages.len(),
{
    if pages.len() == 0 {
        -1
    } else if first_duplicate(pages.drop_last()) >= 0 {
        first_duplicate(pages.drop_last())
    } else if page_index(pages.drop_last(), pages.last().url@) >= 0 {
        pages.len() - 1
    } else {
        -1
    }
}

impl Content {
    /// The page set from pages in load order: the first page whose URL an
    /// earlier page has is refused; otherwise the pages sorted stably by
    /// the natural order of their URLs.
    pub fn load(pages: Vec<Page>) -> (r: Result<Content, ContentError>)
        ensures
            first_duplicate(pages@) >= 0 <==> r is Err,
            match r {
                Ok(c) => c.pages@ == sort_by_key(pages@, url_key()),
                Err(ContentError::Duplicate { url }) => url@ == pages@[first_duplicate(pages@)].url@,
                Err(_) => false,
            },
    {
        let mut i: usize = 0;
        while i < pages.len()
            invariant
                i <= pages.len(),
                first_duplicate(pages@.take(ix(i))) == -1,
            decreases pages.len() - i,
        {
            let u = pages[i].url.as_str();
            let mut j: usize = 0;
            let mut dup = false;
            proof {
                lemma_page_index(pages@.take(ix(i)), u@);
            }
            while j < i
                invariant
                    j <= i,
                    i < pages.len(),
                    u@ == pages@[ix(i)].url@,
                    !dup ==> forall|m: int| 0 <= m < j ==> #[trigger] pages@[m].url@ != u@,
                    dup ==> page_index(pages@.take(ix(i)), u@) >= 0,
                    -1 <= page_index(pages@.take(ix(i)), u@) < i,
                    page_index(pages@.take(ix(i)), u@) >= 0 ==> pages@.take(ix(i))[page_index(
                        pages@.take(ix(i)),
                        u@,
                    )].url@ == u@,
                    forall|m: int|
                        0 <= m < i && (page_index(pages@.take(ix(i)), u@) == -1 || m < page_index(
                            pages@.take(ix(i)),
                            u@,
                        )) ==> #[trigger] pages@.take(ix(i))[m].url@ != u@,
                decreases i - j,
            {
                if !dup {
                    let a = to_chars(pages[j].url.as_str());
                    let b = to_chars(u);
                    if eq_v(&a, &b) {
                        dup = true;
                        assert(pages@.take(ix(i))[ix(j)].url@ == u@);
                    }
                }
                j += 1;
            }
            proof {
                let t = pages@.take(ix(i) + 1);
                assert(t.drop_last() =~= pages@.take(ix(i)));
                if !dup {
                    if page_index(pages@.take(ix(i)), u@) >= 0 {
                        let q = page_index(pages@.take(ix(i)), u@);
                        assert(pages@[q].url@ != u@);
                    }
                }
            }
            if dup {
                proof {
                    assert(first_duplicate(pages@.take(ix(i) + 1)) == ix(i));
                    lemma_first_duplicate_prefix(pages@, ix(i) + 1);
                }
                return Err(ContentError::Duplicate { url: pages[i].url.clone() });
            }
            i += 1;
        }
        assert(pages@.take(ix(i)) =~= pages@);
        Ok(Content { pages: sort_pages_by_url(pages) })
    }
}

/// A duplicate found in a prefix is the first duplicate of the whole.
proof fn lemma_first_duplicate_prefix(pages: Seq<Page>, n: int)
    requires
        0 <= n <= pages.len(),
        first_duplicate(pages.take(n)) >= 0,
    ensures
        first_duplicate(pages) == first_duplicate(pages.take(n)),
    decreases pages.len() - n,
{
    if n < pages.len() {
        assert(pages.take(n + 1).drop_last() =~= pages.take(n));
        lemma_first_duplicate_prefix(pages, n + 1);
    } else {
        assert(pages.take(n) =~= pages);
    }
}


// ── the order of a loaded site ─────────────────────────────────────────

/// Consecutive elements are in natural order of `key`.
pub open spec fn naturally_sorted<T>(s: Seq<T>, key: spec_fn(T) -> Seq<char>) -> bool {
    forall|i: int, j: int|
        0 <= i && j == i + 1 && j < s.len() ==> natural_order_of(key(#[trigger] s[i]), key(#[trigger] s[j]))
            != Ordering::Greater
}

proof fn lemma_insert_by_shape<T>(s: Seq<T>, x: T, key: spec_fn(T) -> Seq<char>)
    ensures
        insert_by(s, x, key).len() == s.len() + 1,
        (s.len() == 0 || natural_order_of(key(s.last()), key(x)) != Ordering::Greater) ==> insert_by(s, x, key).last()
            == x,
        (s.len() > 0 && natural_order_of(key(s.last()), key(x)) == Ordering::Greater) ==> insert_by(s, x, key).last()
            == s.last(),
    decreases s.len(),
{
    if s.len() > 0 && natural_order_of(key(s.last()), key(x)) == Ordering::Greater {
        lemma_insert_by_shape(s.drop_last(), x, key);
    }
}

proof fn lemma_insert_by_sorted<T>(s: Seq<T>, x: T, key: spec_fn(T) -> Seq<char>)
    requires
        naturally_sorted(s, key),
    ensures
        naturally_sorted(insert_by(s, x, key), key),
    decreases s.len(),
{
    let r = insert_by(s, x, key);
    if s.len() == 0 {
    } else if natural_order_of(key(s.last()), key(x)) == Ordering::Greater {
        let d = s.drop_last();
        assert(naturally_sorted(d, key)) by {
            assert forall|i: int, j: int| 0 <= i && j == i + 1 && j < d.len() implies natural_order_of(
                key(#[trigger] d[i]),
                key(#[trigger] d[j]),
            ) != Ordering::Greater by {
                assert(d[i] == s[i] && d[j] == s[j]);
            }
        }
        lemma_insert_by_sorted(d, x, key);
        lemma_insert_by_shape(d, x, key);
        let q = insert_by(d, x, key);
        assert(r == q.push(s.last()));
        law_natural_cmp_antisymmetric(key(s.last()), key(x));
        assert forall|i: int, j: int| 0 <= i && j == i + 1 && j < r.len() implies natural_order_of(
            key(#[trigger] r[i]),
            key(#[trigger] r[j]),
        ) != Ordering::Greater by {
            if j < r.len() - 1 {
                assert(r[i] == q[i] && r[j] == q[j]);
            } else {
                assert(r[i] == q.last());
                if d.len() > 0 && natural_order_of(key(d.last()), key(x)) == Ordering::Greater {
                    assert(q.last() == d.last());
                    assert(d.last() == s[s.len() - 2]);
                    assert(s[s.len() - 1] == s.last());
                } else {
                    assert(q.last() == x);
                }
            }
        }
    } else {
        assert forall|i: int, j: int| 0 <= i && j == i + 1 && j < r.len() implies natural_order_of(
            key(#[trigger] r[i]),
            key(#[trigger] r[j]),
        ) != Ordering::Greater by {
            if j < r.len() - 1 {
                assert(r[i] == s[i] && r[j] == s[j]);
            } else {
                assert(r[i] == s.last());
            }
        }
    }
}

proof fn lemma_sort_by_key_sorted<T>(s: Seq<T>, key: spec_fn(T) -> Seq<char>)
    ensures
        naturally_sorted(sort_by_key(s, key), key),
    decreases s.len(),
{
    if s.len() > 0 {
        lemma_sort_by_key_sorted(s.drop_last(), key);
        lemma_insert_by_sorted(sort_by_key(s.drop_last(), key), s.last(), key);
    }
}

/// A loaded site lists its pages in natural order of their URLs: no
/// page sorts after the next one.
pub proof fn law_loaded_pages_in_natural_order(pages: Seq<Page>)
    ensures
        naturally_sorted(sort_by_key(pages, url_key()), url_key()),
{
    lemma_sort_by_key_sorted(pages, url_key());
}


proof fn lemma_insert_by_multiset<T>(s: Seq<T>, x: T, key: spec_fn(T) -> Seq<char>)
    ensures
        insert_by(s, x, key).to_multiset() =~= s.to_multiset().insert(x),
    decreases s.len(),
{
    broadcast use vstd::seq_lib::to_multiset_build, vstd::multiset::group_multiset_axioms;
    if s.len() == 0 {
        assert(s =~= Seq::<T>::empty());
        assert(seq![x] =~= s.push(x));
        assert(insert_by(s, x, key) == seq![x]);
    } else if natural_order_of(key(s.last()), key(x)) == Ordering::Greater {
        let d = s.drop_last();
        lemma_insert_by_multiset(d, x, key);
        assert(d.push(s.last()) =~= s);
        assert(insert_by(s, x, key) == insert_by(d, x, key).push(s.last()));
        assert(insert_by(d, x, key).push(s.last()).to_multiset() =~= insert_by(d, x, key).to_multiset().insert(
            s.last(),
        ));
        assert(d.to_multiset().insert(x).insert(s.last()) =~= d.to_multiset().insert(s.last()).insert(x));
    } else {
        assert(insert_by(s, x, key) == s.push(x));
    }
}

/// Sorting keeps every page: the sorted sequence holds the same pages,
/// each as often.
pub proof fn law_sort_keeps_every_page<T>(s: Seq<T>, key: spec_fn(T) -> Seq<char>)
    ensures
        sort_by_key(s, key).to_multiset() =~= s.to_multiset(),
    decreases s.len(),
{
    broadcast use vstd::seq_lib::to_multiset_build, vstd::multiset::group_multiset_axioms;
    if s.len() > 0 {
        law_sort_keeps_every_page(s.drop_last(), key);
        lemma_insert_by_multiset(sort_by_key(s.drop_last(), key), s.last(), key);
        assert(s.drop_last().push(s.last()) =~= s);
    } else {
        assert(s =~= Seq::<T>::empty());
    }
}


/// No two pages share `f`'s value.
pub open spec fn distinct_by(pages: Seq<Page>, f: spec_fn(Page) -> Seq<char>) -> bool {
    forall|j: int, k: int| 0 <= j < k < pages.len() ==> f(#[trigger] pages[j]) != f(#[trigger] pages[k])
}

/// Inserting keeps the elements and adds the one inserted.
proof fn lemma_insert_by_elems(s: Seq<Page>, x: Page, key: spec_fn(Page) -> Seq<char>)
    ensures
        insert_by(s, x, key).len() == s.len() + 1,
        forall|k: int|
            0 <= k < insert_by(s, x, key).len() ==> (s.contains(#[trigger] insert_by(s, x, key)[k]) || insert_by(
                s,
                x,
                key,
            )[k] == x),
    decreases s.len(),
{
    let r = insert_by(s, x, key);
    if s.len() > 0 {
        let d = s.drop_last();
        lemma_insert_by_elems(d, x, key);
        assert forall|k: int| 0 <= k < r.len() implies (s.contains(#[trigger] r[k]) || r[k] == x) by {
            if r == insert_by(d, x, key).push(s.last()) {
                if k < r.len() - 1 {
                    let y = insert_by(d, x, key)[k];
                    if d.contains(y) {
                        let m = choose|m: int| 0 <= m < d.len() && d[m] == y;
                        assert(s[m] == y);
                    }
                } else {
                    assert(s[s.len() - 1] == r[k]);
                }
            } else {
                assert(r == s.push(x));
                if k < s.len() {
                    assert(s[k] == r[k]);
                }
            }
        }
    }
}

/// Inserting a page whose `f` differs from every page's keeps `f`
/// distinct.
proof fn lemma_insert_by_distinct(s: Seq<Page>, x: Page, key: spec_fn(Page) -> Seq<char>, f: spec_fn(Page) -> Seq<char>)
    requires
        distinct_by(s, f),
        forall|k: int| 0 <= k < s.len() ==> f(#[trigger] s[k]) != f(x),
    ensures
        distinct_by(insert_by(s, x, key), f),
    decreases s.len(),
{
    let r = insert_by(s, x, key);
    if s.len() > 0 {
        let d = s.drop_last();
        lemma_insert_by_distinct(d, x, key, f);
        lemma_insert_by_elems(d, x, key);
        let e = insert_by(d, x, key);
        if r == e.push(s.last()) {
            assert forall|j: int, k: int| 0 <= j < k < r.len() implies f(#[trigger] r[j]) != f(#[trigger] r[k]) by {
                if k == r.len() - 1 {
                    assert(r[j] == e[j]);
                    assert(s.contains(e[j]) || e[j] == x);
                    if d.contains(e[j]) {
                        let m = choose|m: int| 0 <= m < d.len() && d[m] == e[j];
                        assert(s[m] == d[m]);
                        assert(f(s[m]) != f(s[s.len() - 1]));
                    } else {
                        assert(f(s[s.len() - 1]) != f(x));
                    }
                } else {
                    assert(r[j] == e[j] && r[k] == e[k]);
                }
            }
        } else {
            assert(r == s.push(x));
            assert forall|j: int, k: int| 0 <= j < k < r.len() implies f(#[trigger] r[j]) != f(#[trigger] r[k]) by {
                if k == r.len() - 1 {
                    assert(r[j] == s[j]);
                } else {
                    assert(r[j] == s[j] && r[k] == s[k]);
                }
            }
        }
    }
}

/// Sorting keeps the pages (and their number), and keeps `f` distinct.
proof fn lemma_sort_distinct(pages: Seq<Page>, f: spec_fn(Page) -> Seq<char>)
    requires
        distinct_by(pages, f),
    ensures
        sort_by_key(pages, url_key()).len() == pages.len(),
        distinct_by(sort_by_key(pages, url_key()), f),
        forall|k: int|
            0 <= k < pages.len() ==> pages.contains(#[trigger] sort_by_key(pages, url_key())[k]),
    decreases pages.len(),
{
    if pages.len() > 0 {
        let d = pages.drop_last();
        let x = pages.last();
        assert(distinct_by(d, f)) by {
            assert forall|j: int, k: int| 0 <= j < k < d.len() implies f(#[trigger] d[j]) != f(#[trigger] d[k]) by {
                assert(d[j] == pages[j] && d[k] == pages[k]);
            }
        }
        lemma_sort_distinct(d, f);
        let sd = sort_by_key(d, url_key());
        assert forall|k: int| 0 <= k < sd.len() implies f(#[trigger] sd[k]) != f(x) by {
            assert(d.contains(sd[k]));
            let m = choose|m: int| 0 <= m < d.len() && d[m] == sd[k];
            assert(pages[m] == d[m]);
            assert(f(pages[m]) != f(pages[pages.len() - 1]));
        }
        lemma_insert_by_distinct(sd, x, url_key(), f);
        lemma_insert_by_elems(sd, x, url_key());
        assert forall|k: int| 0 <= k < pages.len() implies pages.contains(#[trigger] sort_by_key(pages, url_key())[k]) by {
            let y = sort_by_key(pages, url_key())[k];
            if sd.contains(y) {
                let m = choose|m: int| 0 <= m < sd.len() && sd[m] == y;
                assert(d.contains(sd[m]));
                let n = choose|n: int| 0 <= n < d.len() && d[n] == sd[m];
                assert(pages[n] == y);
            } else {
                assert(pages[pages.len() - 1] == y);
            }
        }
    }
}

/// Pages without a repeated URL have distinct URLs.
proof fn lemma_no_duplicate_distinct(pages: Seq<Page>)
    requires
        first_duplicate(pages) == -1,
    ensures
        distinct_by(pages, url_key()),
    decreases pages.len(),
{
    if pages.len() > 0 {
        let d = pages.drop_last();
        lemma_no_duplicate_distinct(d);
        lemma_page_index(d, pages.last().url@);
        assert forall|j: int, k: int| 0 <= j < k < pages.len() implies url_key()(#[trigger] pages[j]) != url_key()(
            #[trigger] pages[k],
        ) by {
            if k == pages.len() - 1 {
                assert(pages[j] == d[j]);
                assert(d[j].url@ != pages.last().url@);
            } else {
                assert(pages[j] == d[j] && pages[k] == d[k]);
            }
        }
    }
}

/// Where pages are distinct by `f`, the first page with a given value is
/// the only one.
proof fn lemma_lookup_own_place(pages: Seq<Page>, i: int)
    requires
        distinct_by(pages, url_key()),
        0 <= i < pages.len(),
    ensures
        page_index(pages, pages[i].url@) == i,
{
    lemma_page_index(pages, pages[i].url@);
    let pi = page_index(pages, pages[i].url@);
    if pi >= 0 && pi != i {
        if pi < i {
            assert(url_key()(pages[pi]) != url_key()(pages[i]));
        } else {
            assert(url_key()(pages[i]) != url_key()(pages[pi]));
        }
    }
}

proof fn lemma_rel_own_place(pages: Seq<Page>, i: int)
    requires
        distinct_by(pages, |p: Page| p.rel@),
        0 <= i < pages.len(),
    ensures
        rel_index(pages, pages[i].rel@) == i,
{
    lemma_rel_index(pages, pages[i].rel@);
    let ri = rel_index(pages, pages[i].rel@);
    if ri >= 0 && ri != i {
        let f = |p: Page| p.rel@;
        if ri < i {
            assert(f(pages[ri]) != f(pages[i]));
        } else {
            assert(f(pages[i]) != f(pages[ri]));
        }
    }
}

/// A loaded site holds every page given to it, each once; looking up a
/// page's URL finds its own place, and so does looking up its source
/// path when the paths are distinct (files of one tree); a URL or path
/// is found exactly when some page has it.
pub proof fn law_loaded_lookups(pages: Seq<Page>, u: Seq<char>)
    requires
        first_duplicate(pages) == -1,
    ensures
        sort_by_key(pages, url_key()).len() == pages.len(),
        forall|k: int|
            0 <= k < pages.len() ==> pages.contains(#[trigger] sort_by_key(pages, url_key())[k]),
        forall|i: int|
            0 <= i < pages.len() ==> page_index(sort_by_key(pages, url_key()), #[trigger] sort_by_key(
                pages,
                url_key(),
            )[i].url@) == i,
        page_index(sort_by_key(pages, url_key()), u) >= 0 <==> exists|i: int|
            0 <= i < pages.len() && #[trigger] sort_by_key(pages, url_key())[i].url@ == u,
        distinct_by(pages, |p: Page| p.rel@) ==> forall|i: int|
            0 <= i < pages.len() ==> rel_index(sort_by_key(pages, url_key()), #[trigger] sort_by_key(
                pages,
                url_key(),
            )[i].rel@) == i,
        rel_index(sort_by_key(pages, url_key()), u) >= 0 <==> exists|i: int|
            0 <= i < pages.len() && #[trigger] sort_by_key(pages, url_key())[i].rel@ == u,
{
    let c = sort_by_key(pages, url_key());
    lemma_no_duplicate_distinct(pages);
    lemma_sort_distinct(pages, url_key());
    assert forall|i: int| 0 <= i < pages.len() implies page_index(c, #[trigger] c[i].url@) == i by {
        lemma_lookup_own_place(c, i);
    }
    lemma_page_index(c, u);
    lemma_rel_index(c, u);
    if exists|i: int| 0 <= i < pages.len() && #[trigger] c[i].url@ == u {
        let i = choose|i: int| 0 <= i < pages.len() && #[trigger] c[i].url@ == u;
        lemma_lookup_own_place(c, i);
    }
    if exists|i: int| 0 <= i < pages.len() && #[trigger] c[i].rel@ == u {
        let i = choose|i: int| 0 <= i < pages.len() && #[trigger] c[i].rel@ == u;
        assert(c[i].rel@ == u);
    }
    if distinct_by(pages, |p: Page| p.rel@) {
        lemma_sort_distinct(pages, |p: Page| p.rel@);
        assert forall|i: int| 0 <= i < pages.len() implies rel_index(c, #[trigger] c[i].rel@) == i by {
            lemma_rel_own_place(c, i);
        }
    }
}


/// No line of `y` starts with `---`.
pub open spec fn no_rule_line(y: Seq<char>) -> bool {
    forall|k: int|
        #![trigger y[k]]
        0 <= k && k + 3 <= y.len() && (k == 0 || y[k - 1] == '\n') ==> !(y[k] == '-' && y[k + 1] == '-' && y[k + 2]
            == '-')
}

/// A line ends no later than just past a newline at or after its start.
proof fn lemma_line_end_le(s: Seq<char>, i: int, m: int)
    requires
        0 <= i <= m < s.len(),
        s[m] == '\n',
    ensures
        line_end(s, i) <= m + 1,
    decreases m - i,
{
    if s[i] != '\n' {
        lemma_line_end_le(s, i + 1, m);
    }
}

/// A line that ends before the end of the text ends just past a newline.
proof fn lemma_line_end_after_nl(s: Seq<char>, i: int)
    requires
        0 <= i < s.len(),
        line_end(s, i) < s.len(),
    ensures
        s[line_end(s, i) - 1] == '\n',
    decreases s.len() - i,
{
    if s[i] != '\n' {
        if i + 1 < s.len() {
            lemma_line_end_after_nl(s, i + 1);
        } else {
            assert(line_end(s, i + 1) == s.len());
        }
    }
}

/// `trim_end` keeps a prefix.
proof fn lemma_trim_end_is_prefix(x: Seq<char>)
    ensures
        trim_end(x).len() <= x.len(),
        trim_end(x) == x.take(trim_end(x).len() as int),
    decreases x.len(),
{
    if x.len() > 0 && crate::text::is_ws(x.last()) {
        lemma_trim_end_is_prefix(x.drop_last());
        assert(x.drop_last().take(trim_end(x).len() as int) =~= x.take(trim_end(x).len() as int));
    } else {
        assert(x.take(x.len() as int) =~= x);
    }
}

/// From any line start inside the front matter `y`, the closing line is
/// the `---` line right after it.
proof fn lemma_fm_close_walk(s: Seq<char>, y: Seq<char>, b: Seq<char>, i: int)
    requires
        s == "---\n"@ + y + "\n---\n"@ + b,
        no_rule_line(y),
        4 <= i <= y.len() + 5,
        i == 4 || s[i - 1] == '\n',
    ensures
        fm_close(s, i) == Some((y.len() as int + 5, y.len() as int + 9)),
    decreases y.len() + 5 - i,
{
    reveal_strlit("---\n");
    reveal_strlit("\n---\n");
    reveal_strlit("---");
    let q: int = y.len() as int + 4;
    let p: int = q + 1;
    assert(s.len() == y.len() + 9 + b.len());
    assert(s[q] == '\n');
    assert(s[p] == '-' && s[p + 1] == '-' && s[p + 2] == '-' && s[p + 3] == '\n');
    assert forall|k: int| 0 <= k < y.len() implies s[4 + k] == y[k] by {}
    lemma_line_end_bounds(s, i);
    if i == p {
        assert(line_end(s, p + 3) == p + 4);
        assert(line_end(s, p + 2) == p + 4);
        assert(line_end(s, p + 1) == p + 4);
        assert(line_end(s, p) == p + 4);
        let x = s.subrange(p, p + 4);
        assert(x =~= "---\n"@);
        assert(crate::text::is_ws('\n'));
        assert(!crate::text::is_ws('-'));
        assert(x.drop_last() =~= "---"@);
        assert(trim_end(x.drop_last()) == x.drop_last());
        assert(trim_end(x) == "---"@);
    } else {
        let e = line_end(s, i);
        lemma_line_end_le(s, i, q);
        let x = s.subrange(i, e);
        if trim_end(x) == "---"@ {
            lemma_trim_end_is_prefix(x);
            assert(trim_end(x).len() == 3);
            assert(x.take(3) == "---"@);
            assert(x.take(3)[0] == x[0] && x.take(3)[1] == x[1] && x.take(3)[2] == x[2]);
            assert(x[0] == '-' && x[1] == '-' && x[2] == '-');
            assert(s[i] == '-' && s[i + 1] == '-' && s[i + 2] == '-');
            assert(i + 2 < q);
            let k = i - 4;
            assert(y[k] == s[i]);
            assert(y[k + 1] == s[i + 1]);
            assert(y[k + 2] == s[i + 2]);
            if k > 0 {
                assert(y[k - 1] == s[i - 1]);
            }
        }
        lemma_line_end_after_nl(s, i);
        lemma_fm_close_walk(s, y, b, e);
    }
}

/// The front matter is everything between the opening `---` line and the
/// next `---` line: the whole text in between, trimmed (all of its
/// lines), and the body is what follows the closing line.
pub proof fn law_front_matter_is_all_between(y: Seq<char>, b: Seq<char>)
    requires
        no_rule_line(y),
    ensures
        spec_split_front_matter("---\n"@ + y + "\n---\n"@ + b) == (Some(trim(y + "\n"@)), b),
{
    reveal_strlit("---\n");
    reveal_strlit("\n---\n");
    reveal_strlit("---");
    reveal_strlit("\n");
    let s = "---\n"@ + y + "\n---\n"@ + b;
    assert(s[0] == '-' && s[1] == '-' && s[2] == '-' && s[3] == '\n');
    assert(line_end(s, 3) == 4);
    assert(line_end(s, 2) == 4);
    assert(line_end(s, 1) == 4);
    assert(line_end(s, 0) == 4);
    let x = s.subrange(0, 4);
    assert(x =~= "---\n"@);
    assert(crate::text::is_ws('\n'));
    assert(!crate::text::is_ws('-'));
    assert(x.drop_last() =~= "---"@);
    assert(trim_end(x.drop_last()) == x.drop_last());
    assert(trim_end(x) == "---"@);
    lemma_fm_close_walk(s, y, b, 4);
    assert(s.subrange(4, y.len() as int + 5) =~= y + "\n"@);
    assert(s.skip(y.len() as int + 9) =~= b);
}

} // verus!
