//! The dev server's request logic: which file under `public/` a request
//! path names (percent-decoded once, then split into segments; `..` or a
//! backslash is refused before any filesystem access), its content type,
//! and the live-reload script injected into HTML pages.

use vstd::prelude::*;
use vstd::string::StringSliceAdditionalSpecFns;

use crate::markdown::plain_segments;
use crate::sidebar::split_on;
use crate::markdown::highlight::split_char_v;
use crate::text::{ends_with, ends_with_str, eq_str, from_chars, ix, push_str, to_chars};

verus! {

broadcast use vstd::string::group_string_axioms;

/// `String::from_utf8`: succeeds exactly on valid UTF-8, with the
/// characters the bytes encode.
#[verifier::external_body]
fn string_from_utf8(v: Vec<u8>) -> (r: Option<String>)
    ensures
        r is Some <==> vstd::utf8::valid_utf8(v@),
        match r {
            Some(s) => s@ == vstd::utf8::decode_utf8(v@),
            None => true,
        },
{
    String::from_utf8(v).ok()
}

pub open spec fn is_hex(b: u8) -> bool {
    (48 <= b <= 57) || (65 <= b <= 70) || (97 <= b <= 102)
}

pub open spec fn hex_val(b: u8) -> int {
    if 48 <= b <= 57 {
        b - 48
    } else if 65 <= b <= 70 {
        b - 55
    } else {
        b - 87
    }
}

/// The byte two characters after `%` give (`u8::from_str_radix(_, 16)`:
/// two hex digits, or `+` and one).
pub open spec fn hex_pair(a: u8, b: u8) -> Option<u8> {
    if a == 43 && is_hex(b) {
        Some(hex_val(b) as u8)
    } else if is_hex(a) && is_hex(b) {
        Some((hex_val(a) * 16 + hex_val(b)) as u8)
    } else {
        None
    }
}

/// Percent-decoding bytes from `i`: `%` with two more bytes must be a
/// valid escape (else the whole decoding fails); other bytes pass.
pub open spec fn decode_from(b: Seq<u8>, i: int) -> Option<Seq<u8>>
    decreases b.len() - i,
{
    if i < 0 || i >= b.len() {
        Some(Seq::empty())
    } else if b[i] == 37 && i + 3 <= b.len() {
        match hex_pair(b[i + 1], b[i + 2]) {
            Some(v) => match decode_from(b, i + 3) {
                Some(rest) => Some(seq![v] + rest),
                None => None,
            },
            None => None,
        }
    } else {
        match decode_from(b, i + 1) {
            Some(rest) => Some(seq![b[i]] + rest),
            None => None,
        }
    }
}

/// The decoded text, when the escapes are valid and the bytes UTF-8.
pub open spec fn spec_percent_decode(s: Seq<char>) -> Option<Seq<char>> {
    match decode_from(vstd::utf8::encode_utf8(s), 0) {
        Some(out) => if vstd::utf8::valid_utf8(out) {
            Some(vstd::utf8::decode_utf8(out))
        } else {
            None
        },
        None => None,
    }
}

pub open spec fn prepend(p: Seq<u8>, o: Option<Seq<u8>>) -> Option<Seq<u8>> {
    match o {
        Some(r) => Some(p + r),
        None => None,
    }
}

fn hex_val_v(b: u8) -> (r: u8)
    requires
        is_hex(b),
    ensures
        r == hex_val(b),
{
    if 48 <= b && b <= 57 {
        b - 48
    } else if 65 <= b && b <= 70 {
        b - 55
    } else {
        b - 87
    }
}

fn is_hex_v(b: u8) -> (r: bool)
    ensures
        r == is_hex(b),
{
    (48 <= b && b <= 57) || (65 <= b && b <= 70) || (97 <= b && b <= 102)
}

/// Percent-decode a request path once.
pub fn percent_decode(s: &str) -> (r: Option<String>)
    ensures
        match r {
            Some(t) => spec_percent_decode(s@) == Some(t@),
            None => spec_percent_decode(s@) is None,
        },
{
    let bytes = s.as_bytes();
    let ghost b = bytes@;
    assert(b == vstd::utf8::encode_utf8(s@));
    let mut out: Vec<u8> = Vec::new();
    let mut i: usize = 0;
    assert(out@ =~= Seq::<u8>::empty());
    assert(decode_from(b, 0) == prepend(out@, decode_from(b, 0)));
    while i < bytes.len()
        invariant
            i <= bytes.len(),
            b == bytes@,
            b == vstd::utf8::encode_utf8(s@),
            decode_from(b, 0) == prepend(out@, decode_from(b, ix(i))),
        decreases bytes.len() - i,
    {
        if bytes[i] == 37 && bytes.len() - i >= 3 {
            let a = bytes[i + 1];
            let c = bytes[i + 2];
            let v: u8 = if a == 43 && is_hex_v(c) {
                hex_val_v(c)
            } else if is_hex_v(a) && is_hex_v(c) {
                let hi = hex_val_v(a);
                let lo = hex_val_v(c);
                hi * 16 + lo
            } else {
                assert(decode_from(b, ix(i)) is None);
                return None;
            };
            assert(hex_pair(a, c) == Some(v));
            let ghost o = out@;
            out.push(v);
            assert(out@ =~= o + seq![v]);
            proof {
                match decode_from(b, ix(i) + 3) {
                    Some(rest) => {
                        assert(o + (seq![v] + rest) =~= out@ + rest);
                    },
                    None => {},
                }
            }
            i = i + 3;
        } else {
            let x = bytes[i];
            let ghost o = out@;
            out.push(x);
            assert(out@ =~= o + seq![x]);
            proof {
                match decode_from(b, ix(i) + 1) {
                    Some(rest) => {
                        assert(o + (seq![x] + rest) =~= out@ + rest);
                    },
                    None => {},
                }
            }
            i = i + 1;
        }
    }
    assert(out@ + Seq::<u8>::empty() =~= out@);
    string_from_utf8(out)
}

/// What the dev server does with a request path.
#[derive(Debug)]
pub enum ServePlan {
    /// The path's escapes are invalid (400).
    BadEncoding,
    /// Refused before touching the filesystem (404).
    NotFound,
    /// The file at `segments` under `public/`; `html` pages get the
    /// live-reload script.
    File { segments: Vec<String>, html: bool },
}

/// The file a request path asks for: directory paths get `index.html`.
pub open spec fn request_file(path: Seq<char>) -> Seq<char> {
    if path == "/"@ {
        "/index.html"@
    } else if ends_with(path, "/"@) {
        path + "index.html"@
    } else {
        path
    }
}

/// Whether a `..` segment is among the segments.
pub open spec fn has_parent_segment(segs: Seq<Seq<char>>) -> bool {
    exists|k: int| 0 <= k < segs.len() && segs[k] == ".."@
}

/// The plan for a request path: decoding fails → bad encoding; a
/// backslash or a `..` segment → not found; otherwise the non-empty,
/// non-`.` segments, HTML when the decoded path ends in `.html`.
pub open spec fn plan_ok(r: ServePlan, path: Seq<char>) -> bool {
    match spec_percent_decode(request_file(path)) {
        None => r is BadEncoding,
        Some(rel) => if rel.contains('\\') || has_parent_segment(split_on(rel, '/')) {
            r is NotFound
        } else {
            match r {
                ServePlan::File { segments, html } => segments.deep_view() == plain_segments(
                    split_on(rel, '/'),
                ) && html == ends_with(rel, ".html"@),
                _ => false,
            }
        },
    }
}

pub fn serve_plan(path: &str) -> (r: ServePlan)
    ensures
        plan_ok(r, path@),
{
    let pv = to_chars(path);
    let req = if eq_str(&pv, "/") {
        String::from_str("/index.html")
    } else if ends_with_str(&pv, "/") {
        let mut x = pv.clone();
        push_str(&mut x, "index.html");
        from_chars(&x)
    } else {
        String::from_str(path)
    };
    assert(req@ == request_file(path@));
    let rel = match percent_decode(req.as_str()) {
        Some(r) => r,
        None => {
            return ServePlan::BadEncoding;
        },
    };
    let rv = to_chars(rel.as_str());
    let mut k: usize = 0;
    while k < rv.len()
        invariant
            k <= rv.len(),
            rv@ == rel@,
            spec_percent_decode(request_file(path@)) == Some(rel@),
            forall|m: int| 0 <= m < k ==> rv@[m] != '\\',
        decreases rv.len() - k,
    {
        if rv[k] == '\\' {
            assert(rel@.contains('\\')) by {
                assert(rel@[ix(k)] == '\\');
            }
            return ServePlan::NotFound;
        }
        k += 1;
    }
    assert(!rel@.contains('\\'));
    let parts = split_char_v(&rv, '/');
    let ghost pd = parts.deep_view();
    let mut segments: Vec<String> = Vec::new();
    let mut i: usize = 0;
    proof {
        reveal_strlit(".");
        reveal_strlit("..");
    }
    assert(pd.take(0) =~= Seq::<Seq<char>>::empty());
    assert(segments.deep_view() =~= Seq::<Seq<char>>::empty());
    while i < parts.len()
        invariant
            i <= parts.len(),
            pd == parts.deep_view(),
            pd == split_on(rel@, '/'),
            rv@ == rel@,
            !rel@.contains('\\'),
            spec_percent_decode(request_file(path@)) == Some(rel@),
            forall|m: int| 0 <= m < i ==> pd[m] != ".."@,
            segments.deep_view() == plain_segments(pd.take(ix(i))),
        decreases parts.len() - i,
    {
        let seg = &parts[i];
        assert(pd[ix(i)] == seg@);
        assert(pd.take(ix(i) + 1).drop_last() =~= pd.take(ix(i)));
        assert(pd.take(ix(i) + 1).last() == seg@);
        if eq_str(seg, "..") {
            assert(has_parent_segment(split_on(rel@, '/'))) by {
                assert(pd[ix(i)] == ".."@);
            }
            return ServePlan::NotFound;
        }
        if !(seg.len() == 0 || eq_str(seg, ".")) {
            let ghost before = segments.deep_view();
            segments.push(from_chars(seg));
            assert(segments.deep_view() =~= before.push(seg@));
        }
        i += 1;
    }
    assert(pd.take(ix(i)) =~= pd);
    assert(!has_parent_segment(split_on(rel@, '/')));
    let html = ends_with_str(&rv, ".html");
    ServePlan::File { segments, html }
}

/// The content type of a file extension.
pub open spec fn spec_mime_for(ext: Option<Seq<char>>) -> Seq<char> {
    match ext {
        Some(e) => if e == "html"@ {
            "text/html; charset=utf-8"@
        } else if e == "css"@ {
            "text/css; charset=utf-8"@
        } else if e == "js"@ {
            "text/javascript; charset=utf-8"@
        } else if e == "json"@ {
            "application/json"@
        } else if e == "svg"@ {
            "image/svg+xml"@
        } else if e == "png"@ {
            "image/png"@
        } else if e == "jpg"@ || e == "jpeg"@ {
            "image/jpeg"@
        } else if e == "gif"@ {
            "image/gif"@
        } else if e == "webp"@ {
            "image/webp"@
        } else if e == "ico"@ {
            "image/x-icon"@
        } else if e == "woff"@ {
            "font/woff"@
        } else if e == "woff2"@ {
            "font/woff2"@
        } else if e == "txt"@ {
            "text/plain; charset=utf-8"@
        } else if e == "xml"@ {
            "application/xml"@
        } else if e == "webmanifest"@ {
            "application/manifest+json"@
        } else {
            "application/octet-stream"@
        },
        None => "application/octet-stream"@,
    }
}

/// The content type served for a file extension.
pub fn mime_for(ext: Option<&str>) -> (r: &'static str)
    ensures
        r@ == spec_mime_for(
            match ext {
                Some(e) => Some(e@),
                None => None,
            },
        ),
{
    match ext {
        Some(e) => {
            let v = to_chars(e);
            if eq_str(&v, "html") {
                "text/html; charset=utf-8"
            } else if eq_str(&v, "css") {
                "text/css; charset=utf-8"
            } else if eq_str(&v, "js") {
                "text/javascript; charset=utf-8"
            } else if eq_str(&v, "json") {
                "application/json"
            } else if eq_str(&v, "svg") {
                "image/svg+xml"
            } else if eq_str(&v, "png") {
                "image/png"
            } else if eq_str(&v, "jpg") || eq_str(&v, "jpeg") {
                "image/jpeg"
            } else if eq_str(&v, "gif") {
                "image/gif"
            } else if eq_str(&v, "webp") {
                "image/webp"
            } else if eq_str(&v, "ico") {
                "image/x-icon"
            } else if eq_str(&v, "woff") {
                "font/woff"
            } else if eq_str(&v, "woff2") {
                "font/woff2"
            } else if eq_str(&v, "txt") {
                "text/plain; charset=utf-8"
            } else if eq_str(&v, "xml") {
                "application/xml"
            } else if eq_str(&v, "webmanifest") {
                "application/manifest+json"
            } else {
                "application/octet-stream"
            }
        },
        None => "application/octet-stream",
    }
}


// ── laws ───────────────────────────────────────────────────────────────

proof fn lemma_plain_segments_members(segs: Seq<Seq<char>>)
    ensures
        forall|k: int|
            0 <= k < plain_segments(segs).len() ==> segs.contains(#[trigger] plain_segments(segs)[k])
                && plain_segments(segs)[k].len() > 0 && plain_segments(segs)[k] != "."@,
    decreases segs.len(),
{
    if segs.len() > 0 {
        lemma_plain_segments_members(segs.drop_last());
        let p = plain_segments(segs);
        let q = plain_segments(segs.drop_last());
        assert forall|k: int| 0 <= k < p.len() implies segs.contains(#[trigger] p[k]) && p[k].len() > 0
            && p[k] != "."@ by {
            if k < q.len() {
                assert(p[k] == q[k]);
                let m = choose|m: int| 0 <= m < segs.drop_last().len() && segs.drop_last()[m] == q[k];
                assert(segs[m] == q[k]);
            } else {
                assert(p[k] == segs.last());
                assert(segs[segs.len() - 1] == segs.last());
            }
        }
    }
}

/// A served file never leaves `public/`: every segment of a planned
/// file is a plain name (not empty, not `.`, not `..`).
pub proof fn law_served_files_stay_inside(r: ServePlan, path: Seq<char>)
    requires
        plan_ok(r, path),
        r is File,
    ensures
        forall|k: int|
            0 <= k < r->segments.deep_view().len() ==> {
                let seg = #[trigger] r->segments.deep_view()[k];
                seg.len() > 0 && seg != "."@ && seg != ".."@
            },
{
    let rel = spec_percent_decode(request_file(path))->0;
    let segs = split_on(rel, '/');
    lemma_plain_segments_members(segs);
    assert forall|k: int| 0 <= k < r->segments.deep_view().len() implies {
        let seg = #[trigger] r->segments.deep_view()[k];
        seg.len() > 0 && seg != "."@ && seg != ".."@
    } by {
        let seg = r->segments.deep_view()[k];
        assert(plain_segments(segs)[k] == seg);
        if seg == ".."@ {
            let m = choose|m: int| 0 <= m < segs.len() && segs[m] == seg;
            assert(has_parent_segment(segs));
        }
    }
}

proof fn lemma_decode_plain(b: Seq<u8>, i: int)
    requires
        0 <= i <= b.len(),
        forall|k: int| 0 <= k < b.len() ==> #[trigger] b[k] != 37,
    ensures
        decode_from(b, i) == Some(b.skip(i)),
    decreases b.len() - i,
{
    if i < b.len() {
        lemma_decode_plain(b, i + 1);
        assert(seq![b[i]] + b.skip(i + 1) =~= b.skip(i));
    } else {
        assert(b.skip(i) =~= Seq::<u8>::empty());
    }
}

/// Decoding bytes without `%` gives them back.
pub proof fn law_decode_without_escapes(b: Seq<u8>)
    requires
        forall|k: int| 0 <= k < b.len() ==> #[trigger] b[k] != 37,
    ensures
        decode_from(b, 0) == Some(b),
{
    lemma_decode_plain(b, 0);
    assert(b.skip(0) =~= b);
}

/// A path without escapes decodes to itself once its bytes hold no
/// `%`.
pub proof fn law_plain_path_decodes_to_itself(s: Seq<char>)
    requires
        forall|k: int| 0 <= k < vstd::utf8::encode_utf8(s).len() ==> #[trigger] vstd::utf8::encode_utf8(s)[k] != 37,
    ensures
        spec_percent_decode(s) == Some(s),
{
    law_decode_without_escapes(vstd::utf8::encode_utf8(s));
    vstd::utf8::encode_utf8_valid_utf8(s);
    vstd::utf8::encode_utf8_decode_utf8(s);
}

/// The live-reload client every served page gets. One EventSource per
/// origin, not per tab: the tab holding the Web Lock connects and
/// rebroadcasts; the others listen on the channel and take the lock
/// over when it closes (browsers allow six connections per host).
pub const LIVERELOAD_SCRIPT: &'static str = "<script>(function(){var ch='BroadcastChannel' in window?new BroadcastChannel('rustpress-livereload'):null;if(ch)ch.onmessage=function(){location.reload()};function connect(){new EventSource('/@rustpress/livereload').addEventListener('reload',function(){if(ch)ch.postMessage('reload');location.reload()})}if(ch&&navigator.locks)navigator.locks.request('rustpress-livereload',function(){connect();return new Promise(function(){})});else connect()})();</script>";

/// `</body>` as bytes.
pub open spec fn close_body() -> Seq<u8> {
    seq![60u8, 47u8, 98u8, 111u8, 100u8, 121u8, 62u8]
}

/// The last index `<= i` where `p` occurs in `s`, or -1.
pub open spec fn last_bytes_from(s: Seq<u8>, p: Seq<u8>, i: int) -> int
    decreases i + 1,
{
    if i < 0 {
        -1
    } else if i + p.len() <= s.len() && s.subrange(i, i + p.len()) == p {
        i
    } else {
        last_bytes_from(s, p, i - 1)
    }
}

/// A served HTML page with the live-reload client: before the last
/// `</body>` of a UTF-8 page, else at the end.
pub open spec fn spec_inject_livereload(body: Seq<u8>) -> Seq<u8> {
    let i = last_bytes_from(body, close_body(), body.len() - close_body().len());
    if vstd::utf8::valid_utf8(body) && i >= 0 {
        body.take(i) + LIVERELOAD_SCRIPT.spec_bytes() + body.skip(i)
    } else {
        body + LIVERELOAD_SCRIPT.spec_bytes()
    }
}

fn bytes_copy(v: &Vec<u8>, lo: usize, hi: usize, out: &mut Vec<u8>)
    requires
        lo <= hi <= v.len(),
    ensures
        final(out)@ == old(out)@ + v@.subrange(lo as int, hi as int),
{
    let ghost start = out@;
    let mut i: usize = lo;
    while i < hi
        invariant
            lo <= i <= hi <= v.len(),
            out@ == start + v@.subrange(lo as int, i as int),
        decreases hi - i,
    {
        out.push(v[i]);
        assert(v@.subrange(lo as int, i as int + 1) =~= v@.subrange(lo as int, i as int).push(v@[i as int]));
        i += 1;
    }
}

pub fn inject_livereload(body: Vec<u8>) -> (r: Vec<u8>)
    ensures
        r@ == spec_inject_livereload(body@),
{
    let mut copy: Vec<u8> = Vec::new();
    bytes_copy(&body, 0, body.len(), &mut copy);
    assert(copy@ =~= body@);
    let valid = string_from_utf8(copy).is_some();
    let script = LIVERELOAD_SCRIPT.as_bytes();
    let tag: Vec<u8> = vec![60u8, 47u8, 98u8, 111u8, 100u8, 121u8, 62u8];
    assert(tag@ =~= close_body());
    let mut found: Option<usize> = None;
    if valid && body.len() >= 7 {
        let mut i: usize = body.len() - 7;
        let ghost goal = last_bytes_from(body@, close_body(), body@.len() - 7);
        loop
            invariant_except_break
                found is None,
            invariant
                i + 7 <= body.len(),
                tag@ == close_body(),
                goal == last_bytes_from(body@, close_body(), body@.len() - 7),
                goal == last_bytes_from(body@, close_body(), i as int),
            ensures
                match found {
                    Some(k) => k == goal && k + 7 <= body.len(),
                    None => goal == -1,
                },
            decreases i,
        {
            let mut m: usize = 0;
            while m < 7 && body[i + m] == tag[m]
                invariant
                    m <= 7,
                    i + 7 <= body.len(),
                    tag@ == close_body(),
                    forall|q: int| 0 <= q < m ==> body@[i + q] == tag@[q],
                decreases 7 - m,
            {
                m += 1;
            }
            if m == 7 {
                assert(body@.subrange(i as int, i + 7) =~= close_body());
                found = Some(i);
                break;
            }
            assert(body@.subrange(i as int, i + 7) != close_body()) by {
                assert(body@.subrange(i as int, i + 7)[m as int] == body@[i + m]);
            }
            if i == 0 {
                assert(last_bytes_from(body@, close_body(), -1) == -1);
                break;
            }
            i -= 1;
        }
    }
    let mut out: Vec<u8> = Vec::new();
    let ghost sb = LIVERELOAD_SCRIPT.spec_bytes();
    match found {
        Some(k) => {
            bytes_copy(&body, 0, k, &mut out);
            let sv = slice_to_vec_u8(script);
            bytes_copy(&sv, 0, sv.len(), &mut out);
            bytes_copy(&body, k, body.len(), &mut out);
            assert(sv@.subrange(0, sv@.len() as int) =~= sb);
            assert(body@.subrange(0, k as int) =~= body@.take(k as int));
            assert(body@.subrange(k as int, body@.len() as int) =~= body@.skip(k as int));
        },
        None => {
            bytes_copy(&body, 0, body.len(), &mut out);
            let sv = slice_to_vec_u8(script);
            bytes_copy(&sv, 0, sv.len(), &mut out);
            assert(sv@.subrange(0, sv@.len() as int) =~= sb);
            assert(body@.subrange(0, body@.len() as int) =~= body@);
            proof {
                if vstd::utf8::valid_utf8(body@) && body@.len() < 7 {
                    assert(last_bytes_from(body@, close_body(), body@.len() - 7) == -1);
                }
            }
        },
    }
    out
}

fn slice_to_vec_u8(s: &[u8]) -> (r: Vec<u8>)
    ensures
        r@ == s@,
{
    let mut r: Vec<u8> = Vec::new();
    let mut i: usize = 0;
    while i < s.len()
        invariant
            i <= s.len(),
            r@ == s@.take(i as int),
        decreases s.len() - i,
    {
        r.push(s[i]);
        assert(s@.take(i as int + 1) =~= s@.take(i as int).push(s@[i as int]));
        i += 1;
    }
    assert(s@.take(s@.len() as int) =~= s@);
    r
}




proof fn lemma_media_html(ext: Option<Seq<char>>)
    ensures
        (spec_mime_for(ext) == "text/html; charset=utf-8"@) <==> (ext == Some("html"@)),
{
    reveal_strlit("html");
    reveal_strlit("css");
    reveal_strlit("js");
    reveal_strlit("json");
    reveal_strlit("svg");
    reveal_strlit("png");
    reveal_strlit("jpg");
    reveal_strlit("jpeg");
    reveal_strlit("gif");
    reveal_strlit("webp");
    reveal_strlit("ico");
    reveal_strlit("woff");
    reveal_strlit("woff2");
    reveal_strlit("txt");
    reveal_strlit("xml");
    reveal_strlit("webmanifest");
    reveal_strlit("text/html; charset=utf-8");
    reveal_strlit("text/css; charset=utf-8");
    reveal_strlit("text/javascript; charset=utf-8");
    reveal_strlit("application/json");
    reveal_strlit("image/svg+xml");
    reveal_strlit("image/png");
    reveal_strlit("image/jpeg");
    reveal_strlit("image/gif");
    reveal_strlit("image/webp");
    reveal_strlit("image/x-icon");
    reveal_strlit("font/woff");
    reveal_strlit("font/woff2");
    reveal_strlit("text/plain; charset=utf-8");
    reveal_strlit("application/xml");
    reveal_strlit("application/manifest+json");
    reveal_strlit("application/octet-stream");
    assert("text/css; charset=utf-8"@ != "text/html; charset=utf-8"@) by { assert("text/css; charset=utf-8"@.len() != "text/html; charset=utf-8"@.len()); }
    assert("text/javascript; charset=utf-8"@ != "text/html; charset=utf-8"@) by { assert("text/javascript; charset=utf-8"@.len() != "text/html; charset=utf-8"@.len()); }
    assert("application/json"@ != "text/html; charset=utf-8"@) by { assert("application/json"@.len() != "text/html; charset=utf-8"@.len()); }
    assert("image/svg+xml"@ != "text/html; charset=utf-8"@) by { assert("image/svg+xml"@.len() != "text/html; charset=utf-8"@.len()); }
    assert("image/png"@ != "text/html; charset=utf-8"@) by { assert("image/png"@.len() != "text/html; charset=utf-8"@.len()); }
    assert("image/jpeg"@ != "text/html; charset=utf-8"@) by { assert("image/jpeg"@.len() != "text/html; charset=utf-8"@.len()); }
    assert("image/gif"@ != "text/html; charset=utf-8"@) by { assert("image/gif"@.len() != "text/html; charset=utf-8"@.len()); }
    assert("image/webp"@ != "text/html; charset=utf-8"@) by { assert("image/webp"@.len() != "text/html; charset=utf-8"@.len()); }
    assert("image/x-icon"@ != "text/html; charset=utf-8"@) by { assert("image/x-icon"@.len() != "text/html; charset=utf-8"@.len()); }
    assert("font/woff"@ != "text/html; charset=utf-8"@) by { assert("font/woff"@.len() != "text/html; charset=utf-8"@.len()); }
    assert("font/woff2"@ != "text/html; charset=utf-8"@) by { assert("font/woff2"@.len() != "text/html; charset=utf-8"@.len()); }
    assert("text/plain; charset=utf-8"@ != "text/html; charset=utf-8"@) by { assert("text/plain; charset=utf-8"@.len() != "text/html; charset=utf-8"@.len()); }
    assert("application/xml"@ != "text/html; charset=utf-8"@) by { assert("application/xml"@.len() != "text/html; charset=utf-8"@.len()); }
    assert("application/manifest+json"@ != "text/html; charset=utf-8"@) by { assert("application/manifest+json"@.len() != "text/html; charset=utf-8"@.len()); }
    assert("application/octet-stream"@ != "text/html; charset=utf-8"@) by { assert("application/octet-stream"@[0] != "text/html; charset=utf-8"@[0]); }
    assert("css"@ != "html"@) by { assert("css"@.len() != "html"@.len()); }
    assert("js"@ != "html"@) by { assert("js"@.len() != "html"@.len()); }
    assert("json"@ != "html"@) by { assert("json"@[0] != "html"@[0]); }
    assert("svg"@ != "html"@) by { assert("svg"@.len() != "html"@.len()); }
    assert("png"@ != "html"@) by { assert("png"@.len() != "html"@.len()); }
    assert("jpg"@ != "html"@) by { assert("jpg"@.len() != "html"@.len()); }
    assert("jpeg"@ != "html"@) by { assert("jpeg"@[0] != "html"@[0]); }
    assert("gif"@ != "html"@) by { assert("gif"@.len() != "html"@.len()); }
    assert("webp"@ != "html"@) by { assert("webp"@[0] != "html"@[0]); }
    assert("ico"@ != "html"@) by { assert("ico"@.len() != "html"@.len()); }
    assert("woff"@ != "html"@) by { assert("woff"@[0] != "html"@[0]); }
    assert("woff2"@ != "html"@) by { assert("woff2"@.len() != "html"@.len()); }
    assert("txt"@ != "html"@) by { assert("txt"@.len() != "html"@.len()); }
    assert("xml"@ != "html"@) by { assert("xml"@.len() != "html"@.len()); }
    assert("webmanifest"@ != "html"@) by { assert("webmanifest"@.len() != "html"@.len()); }
    assert(spec_mime_for(None) == "application/octet-stream"@);
    match ext {
        None => {},
        Some(e) => {
            if e == "html"@ {
            } else if e == "css"@ {
            } else if e == "js"@ {
            } else if e == "json"@ {
            } else if e == "svg"@ {
            } else if e == "png"@ {
            } else if e == "jpg"@ {
            } else if e == "jpeg"@ {
            } else if e == "gif"@ {
            } else if e == "webp"@ {
            } else if e == "ico"@ {
            } else if e == "woff"@ {
            } else if e == "woff2"@ {
            } else if e == "txt"@ {
            } else if e == "xml"@ {
            } else if e == "webmanifest"@ {
            } else {
            }
        },
    }
}

proof fn lemma_media_css(ext: Option<Seq<char>>)
    ensures
        (spec_mime_for(ext) == "text/css; charset=utf-8"@) <==> (ext == Some("css"@)),
{
    reveal_strlit("html");
    reveal_strlit("css");
    reveal_strlit("js");
    reveal_strlit("json");
    reveal_strlit("svg");
    reveal_strlit("png");
    reveal_strlit("jpg");
    reveal_strlit("jpeg");
    reveal_strlit("gif");
    reveal_strlit("webp");
    reveal_strlit("ico");
    reveal_strlit("woff");
    reveal_strlit("woff2");
    reveal_strlit("txt");
    reveal_strlit("xml");
    reveal_strlit("webmanifest");
    reveal_strlit("text/html; charset=utf-8");
    reveal_strlit("text/css; charset=utf-8");
    reveal_strlit("text/javascript; charset=utf-8");
    reveal_strlit("application/json");
    reveal_strlit("image/svg+xml");
    reveal_strlit("image/png");
    reveal_strlit("image/jpeg");
    reveal_strlit("image/gif");
    reveal_strlit("image/webp");
    reveal_strlit("image/x-icon");
    reveal_strlit("font/woff");
    reveal_strlit("font/woff2");
    reveal_strlit("text/plain; charset=utf-8");
    reveal_strlit("application/xml");
    reveal_strlit("application/manifest+json");
    reveal_strlit("application/octet-stream");
    assert("text/html; charset=utf-8"@ != "text/css; charset=utf-8"@) by { assert("text/html; charset=utf-8"@.len() != "text/css; charset=utf-8"@.len()); }
    assert("text/javascript; charset=utf-8"@ != "text/css; charset=utf-8"@) by { assert("text/javascript; charset=utf-8"@.len() != "text/css; charset=utf-8"@.len()); }
    assert("application/json"@ != "text/css; charset=utf-8"@) by { assert("application/json"@.len() != "text/css; charset=utf-8"@.len()); }
    assert("image/svg+xml"@ != "text/css; charset=utf-8"@) by { assert("image/svg+xml"@.len() != "text/css; charset=utf-8"@.len()); }
    assert("image/png"@ != "text/css; charset=utf-8"@) by { assert("image/png"@.len() != "text/css; charset=utf-8"@.len()); }
    assert("image/jpeg"@ != "text/css; charset=utf-8"@) by { assert("image/jpeg"@.len() != "text/css; charset=utf-8"@.len()); }
    assert("image/gif"@ != "text/css; charset=utf-8"@) by { assert("image/gif"@.len() != "text/css; charset=utf-8"@.len()); }
    assert("image/webp"@ != "text/css; charset=utf-8"@) by { assert("image/webp"@.len() != "text/css; charset=utf-8"@.len()); }
    assert("image/x-icon"@ != "text/css; charset=utf-8"@) by { assert("image/x-icon"@.len() != "text/css; charset=utf-8"@.len()); }
    assert("font/woff"@ != "text/css; charset=utf-8"@) by { assert("font/woff"@.len() != "text/css; charset=utf-8"@.len()); }
    assert("font/woff2"@ != "text/css; charset=utf-8"@) by { assert("font/woff2"@.len() != "text/css; charset=utf-8"@.len()); }
    assert("text/plain; charset=utf-8"@ != "text/css; charset=utf-8"@) by { assert("text/plain; charset=utf-8"@.len() != "text/css; charset=utf-8"@.len()); }
    assert("application/xml"@ != "text/css; charset=utf-8"@) by { assert("application/xml"@.len() != "text/css; charset=utf-8"@.len()); }
    assert("application/manifest+json"@ != "text/css; charset=utf-8"@) by { assert("application/manifest+json"@.len() != "text/css; charset=utf-8"@.len()); }
    assert("application/octet-stream"@ != "text/css; charset=utf-8"@) by { assert("application/octet-stream"@.len() != "text/css; charset=utf-8"@.len()); }
    assert("html"@ != "css"@) by { assert("html"@.len() != "css"@.len()); }
    assert("js"@ != "css"@) by { assert("js"@.len() != "css"@.len()); }
    assert("json"@ != "css"@) by { assert("json"@.len() != "css"@.len()); }
    assert("svg"@ != "css"@) by { assert("svg"@[0] != "css"@[0]); }
    assert("png"@ != "css"@) by { assert("png"@[0] != "css"@[0]); }
    assert("jpg"@ != "css"@) by { assert("jpg"@[0] != "css"@[0]); }
    assert("jpeg"@ != "css"@) by { assert("jpeg"@.len() != "css"@.len()); }
    assert("gif"@ != "css"@) by { assert("gif"@[0] != "css"@[0]); }
    assert("webp"@ != "css"@) by { assert("webp"@.len() != "css"@.len()); }
    assert("ico"@ != "css"@) by { assert("ico"@[0] != "css"@[0]); }
    assert("woff"@ != "css"@) by { assert("woff"@.len() != "css"@.len()); }
    assert("woff2"@ != "css"@) by { assert("woff2"@.len() != "css"@.len()); }
    assert("txt"@ != "css"@) by { assert("txt"@[0] != "css"@[0]); }
    assert("xml"@ != "css"@) by { assert("xml"@[0] != "css"@[0]); }
    assert("webmanifest"@ != "css"@) by { assert("webmanifest"@.len() != "css"@.len()); }
    assert(spec_mime_for(None) == "application/octet-stream"@);
    match ext {
        None => {},
        Some(e) => {
            if e == "html"@ {
            } else if e == "css"@ {
            } else if e == "js"@ {
            } else if e == "json"@ {
            } else if e == "svg"@ {
            } else if e == "png"@ {
            } else if e == "jpg"@ {
            } else if e == "jpeg"@ {
            } else if e == "gif"@ {
            } else if e == "webp"@ {
            } else if e == "ico"@ {
            } else if e == "woff"@ {
            } else if e == "woff2"@ {
            } else if e == "txt"@ {
            } else if e == "xml"@ {
            } else if e == "webmanifest"@ {
            } else {
            }
        },
    }
}

proof fn lemma_media_js(ext: Option<Seq<char>>)
    ensures
        (spec_mime_for(ext) == "text/javascript; charset=utf-8"@) <==> (ext == Some("js"@)),
{
    reveal_strlit("html");
    reveal_strlit("css");
    reveal_strlit("js");
    reveal_strlit("json");
    reveal_strlit("svg");
    reveal_strlit("png");
    reveal_strlit("jpg");
    reveal_strlit("jpeg");
    reveal_strlit("gif");
    reveal_strlit("webp");
    reveal_strlit("ico");
    reveal_strlit("woff");
    reveal_strlit("woff2");
    reveal_strlit("txt");
    reveal_strlit("xml");
    reveal_strlit("webmanifest");
    reveal_strlit("text/html; charset=utf-8");
    reveal_strlit("text/css; charset=utf-8");
    reveal_strlit("text/javascript; charset=utf-8");
    reveal_strlit("application/json");
    reveal_strlit("image/svg+xml");
    reveal_strlit("image/png");
    reveal_strlit("image/jpeg");
    reveal_strlit("image/gif");
    reveal_strlit("image/webp");
    reveal_strlit("image/x-icon");
    reveal_strlit("font/woff");
    reveal_strlit("font/woff2");
    reveal_strlit("text/plain; charset=utf-8");
    reveal_strlit("application/xml");
    reveal_strlit("application/manifest+json");
    reveal_strlit("application/octet-stream");
    assert("text/html; charset=utf-8"@ != "text/javascript; charset=utf-8"@) by { assert("text/html; charset=utf-8"@.len() != "text/javascript; charset=utf-8"@.len()); }
    assert("text/css; charset=utf-8"@ != "text/javascript; charset=utf-8"@) by { assert("text/css; charset=utf-8"@.len() != "text/javascript; charset=utf-8"@.len()); }
    assert("application/json"@ != "text/javascript; charset=utf-8"@) by { assert("application/json"@.len() != "text/javascript; charset=utf-8"@.len()); }
    assert("image/svg+xml"@ != "text/javascript; charset=utf-8"@) by { assert("image/svg+xml"@.len() != "text/javascript; charset=utf-8"@.len()); }
    assert("image/png"@ != "text/javascript; charset=utf-8"@) by { assert("image/png"@.len() != "text/javascript; charset=utf-8"@.len()); }
    assert("image/jpeg"@ != "text/javascript; charset=utf-8"@) by { assert("image/jpeg"@.len() != "text/javascript; charset=utf-8"@.len()); }
    assert("image/gif"@ != "text/javascript; charset=utf-8"@) by { assert("image/gif"@.len() != "text/javascript; charset=utf-8"@.len()); }
    assert("image/webp"@ != "text/javascript; charset=utf-8"@) by { assert("image/webp"@.len() != "text/javascript; charset=utf-8"@.len()); }
    assert("image/x-icon"@ != "text/javascript; charset=utf-8"@) by { assert("image/x-icon"@.len() != "text/javascript; charset=utf-8"@.len()); }
    assert("font/woff"@ != "text/javascript; charset=utf-8"@) by { assert("font/woff"@.len() != "text/javascript; charset=utf-8"@.len()); }
    assert("font/woff2"@ != "text/javascript; charset=utf-8"@) by { assert("font/woff2"@.len() != "text/javascript; charset=utf-8"@.len()); }
    assert("text/plain; charset=utf-8"@ != "text/javascript; charset=utf-8"@) by { assert("text/plain; charset=utf-8"@.len() != "text/javascript; charset=utf-8"@.len()); }
    assert("application/xml"@ != "text/javascript; charset=utf-8"@) by { assert("application/xml"@.len() != "text/javascript; charset=utf-8"@.len()); }
    assert("application/manifest+json"@ != "text/javascript; charset=utf-8"@) by { assert("application/manifest+json"@.len() != "text/javascript; charset=utf-8"@.len()); }
    assert("application/octet-stream"@ != "text/javascript; charset=utf-8"@) by { assert("application/octet-stream"@.len() != "text/javascript; charset=utf-8"@.len()); }
    assert("html"@ != "js"@) by { assert("html"@.len() != "js"@.len()); }
    assert("css"@ != "js"@) by { assert("css"@.len() != "js"@.len()); }
    assert("json"@ != "js"@) by { assert("json"@.len() != "js"@.len()); }
    assert("svg"@ != "js"@) by { assert("svg"@.len() != "js"@.len()); }
    assert("png"@ != "js"@) by { assert("png"@.len() != "js"@.len()); }
    assert("jpg"@ != "js"@) by { assert("jpg"@.len() != "js"@.len()); }
    assert("jpeg"@ != "js"@) by { assert("jpeg"@.len() != "js"@.len()); }
    assert("gif"@ != "js"@) by { assert("gif"@.len() != "js"@.len()); }
    assert("webp"@ != "js"@) by { assert("webp"@.len() != "js"@.len()); }
    assert("ico"@ != "js"@) by { assert("ico"@.len() != "js"@.len()); }
    assert("woff"@ != "js"@) by { assert("woff"@.len() != "js"@.len()); }
    assert("woff2"@ != "js"@) by { assert("woff2"@.len() != "js"@.len()); }
    assert("txt"@ != "js"@) by { assert("txt"@.len() != "js"@.len()); }
    assert("xml"@ != "js"@) by { assert("xml"@.len() != "js"@.len()); }
    assert("webmanifest"@ != "js"@) by { assert("webmanifest"@.len() != "js"@.len()); }
    assert(spec_mime_for(None) == "application/octet-stream"@);
    match ext {
        None => {},
        Some(e) => {
            if e == "html"@ {
            } else if e == "css"@ {
            } else if e == "js"@ {
            } else if e == "json"@ {
            } else if e == "svg"@ {
            } else if e == "png"@ {
            } else if e == "jpg"@ {
            } else if e == "jpeg"@ {
            } else if e == "gif"@ {
            } else if e == "webp"@ {
            } else if e == "ico"@ {
            } else if e == "woff"@ {
            } else if e == "woff2"@ {
            } else if e == "txt"@ {
            } else if e == "xml"@ {
            } else if e == "webmanifest"@ {
            } else {
            }
        },
    }
}

proof fn lemma_media_json(ext: Option<Seq<char>>)
    ensures
        (spec_mime_for(ext) == "application/json"@) <==> (ext == Some("json"@)),
{
    reveal_strlit("html");
    reveal_strlit("css");
    reveal_strlit("js");
    reveal_strlit("json");
    reveal_strlit("svg");
    reveal_strlit("png");
    reveal_strlit("jpg");
    reveal_strlit("jpeg");
    reveal_strlit("gif");
    reveal_strlit("webp");
    reveal_strlit("ico");
    reveal_strlit("woff");
    reveal_strlit("woff2");
    reveal_strlit("txt");
    reveal_strlit("xml");
    reveal_strlit("webmanifest");
    reveal_strlit("text/html; charset=utf-8");
    reveal_strlit("text/css; charset=utf-8");
    reveal_strlit("text/javascript; charset=utf-8");
    reveal_strlit("application/json");
    reveal_strlit("image/svg+xml");
    reveal_strlit("image/png");
    reveal_strlit("image/jpeg");
    reveal_strlit("image/gif");
    reveal_strlit("image/webp");
    reveal_strlit("image/x-icon");
    reveal_strlit("font/woff");
    reveal_strlit("font/woff2");
    reveal_strlit("text/plain; charset=utf-8");
    reveal_strlit("application/xml");
    reveal_strlit("application/manifest+json");
    reveal_strlit("application/octet-stream");
    assert("text/html; charset=utf-8"@ != "application/json"@) by { assert("text/html; charset=utf-8"@.len() != "application/json"@.len()); }
    assert("text/css; charset=utf-8"@ != "application/json"@) by { assert("text/css; charset=utf-8"@.len() != "application/json"@.len()); }
    assert("text/javascript; charset=utf-8"@ != "application/json"@) by { assert("text/javascript; charset=utf-8"@.len() != "application/json"@.len()); }
    assert("image/svg+xml"@ != "application/json"@) by { assert("image/svg+xml"@.len() != "application/json"@.len()); }
    assert("image/png"@ != "application/json"@) by { assert("image/png"@.len() != "application/json"@.len()); }
    assert("image/jpeg"@ != "application/json"@) by { assert("image/jpeg"@.len() != "application/json"@.len()); }
    assert("image/gif"@ != "application/json"@) by { assert("image/gif"@.len() != "application/json"@.len()); }
    assert("image/webp"@ != "application/json"@) by { assert("image/webp"@.len() != "application/json"@.len()); }
    assert("image/x-icon"@ != "application/json"@) by { assert("image/x-icon"@.len() != "application/json"@.len()); }
    assert("font/woff"@ != "application/json"@) by { assert("font/woff"@.len() != "application/json"@.len()); }
    assert("font/woff2"@ != "application/json"@) by { assert("font/woff2"@.len() != "application/json"@.len()); }
    assert("text/plain; charset=utf-8"@ != "application/json"@) by { assert("text/plain; charset=utf-8"@.len() != "application/json"@.len()); }
    assert("application/xml"@ != "application/json"@) by { assert("application/xml"@.len() != "application/json"@.len()); }
    assert("application/manifest+json"@ != "application/json"@) by { assert("application/manifest+json"@.len() != "application/json"@.len()); }
    assert("application/octet-stream"@ != "application/json"@) by { assert("application/octet-stream"@.len() != "application/json"@.len()); }
    assert("html"@ != "json"@) by { assert("html"@[0] != "json"@[0]); }
    assert("css"@ != "json"@) by { assert("css"@.len() != "json"@.len()); }
    assert("js"@ != "json"@) by { assert("js"@.len() != "json"@.len()); }
    assert("svg"@ != "json"@) by { assert("svg"@.len() != "json"@.len()); }
    assert("png"@ != "json"@) by { assert("png"@.len() != "json"@.len()); }
    assert("jpg"@ != "json"@) by { assert("jpg"@.len() != "json"@.len()); }
    assert("jpeg"@ != "json"@) by { assert("jpeg"@[1] != "json"@[1]); }
    assert("gif"@ != "json"@) by { assert("gif"@.len() != "json"@.len()); }
    assert("webp"@ != "json"@) by { assert("webp"@[0] != "json"@[0]); }
    assert("ico"@ != "json"@) by { assert("ico"@.len() != "json"@.len()); }
    assert("woff"@ != "json"@) by { assert("woff"@[0] != "json"@[0]); }
    assert("woff2"@ != "json"@) by { assert("woff2"@.len() != "json"@.len()); }
    assert("txt"@ != "json"@) by { assert("txt"@.len() != "json"@.len()); }
    assert("xml"@ != "json"@) by { assert("xml"@.len() != "json"@.len()); }
    assert("webmanifest"@ != "json"@) by { assert("webmanifest"@.len() != "json"@.len()); }
    assert(spec_mime_for(None) == "application/octet-stream"@);
    match ext {
        None => {},
        Some(e) => {
            if e == "html"@ {
            } else if e == "css"@ {
            } else if e == "js"@ {
            } else if e == "json"@ {
            } else if e == "svg"@ {
            } else if e == "png"@ {
            } else if e == "jpg"@ {
            } else if e == "jpeg"@ {
            } else if e == "gif"@ {
            } else if e == "webp"@ {
            } else if e == "ico"@ {
            } else if e == "woff"@ {
            } else if e == "woff2"@ {
            } else if e == "txt"@ {
            } else if e == "xml"@ {
            } else if e == "webmanifest"@ {
            } else {
            }
        },
    }
}

proof fn lemma_media_svg(ext: Option<Seq<char>>)
    ensures
        (spec_mime_for(ext) == "image/svg+xml"@) <==> (ext == Some("svg"@)),
{
    reveal_strlit("html");
    reveal_strlit("css");
    reveal_strlit("js");
    reveal_strlit("json");
    reveal_strlit("svg");
    reveal_strlit("png");
    reveal_strlit("jpg");
    reveal_strlit("jpeg");
    reveal_strlit("gif");
    reveal_strlit("webp");
    reveal_strlit("ico");
    reveal_strlit("woff");
    reveal_strlit("woff2");
    reveal_strlit("txt");
    reveal_strlit("xml");
    reveal_strlit("webmanifest");
    reveal_strlit("text/html; charset=utf-8");
    reveal_strlit("text/css; charset=utf-8");
    reveal_strlit("text/javascript; charset=utf-8");
    reveal_strlit("application/json");
    reveal_strlit("image/svg+xml");
    reveal_strlit("image/png");
    reveal_strlit("image/jpeg");
    reveal_strlit("image/gif");
    reveal_strlit("image/webp");
    reveal_strlit("image/x-icon");
    reveal_strlit("font/woff");
    reveal_strlit("font/woff2");
    reveal_strlit("text/plain; charset=utf-8");
    reveal_strlit("application/xml");
    reveal_strlit("application/manifest+json");
    reveal_strlit("application/octet-stream");
    assert("text/html; charset=utf-8"@ != "image/svg+xml"@) by { assert("text/html; charset=utf-8"@.len() != "image/svg+xml"@.len()); }
    assert("text/css; charset=utf-8"@ != "image/svg+xml"@) by { assert("text/css; charset=utf-8"@.len() != "image/svg+xml"@.len()); }
    assert("text/javascript; charset=utf-8"@ != "image/svg+xml"@) by { assert("text/javascript; charset=utf-8"@.len() != "image/svg+xml"@.len()); }
    assert("application/json"@ != "image/svg+xml"@) by { assert("application/json"@.len() != "image/svg+xml"@.len()); }
    assert("image/png"@ != "image/svg+xml"@) by { assert("image/png"@.len() != "image/svg+xml"@.len()); }
    assert("image/jpeg"@ != "image/svg+xml"@) by { assert("image/jpeg"@.len() != "image/svg+xml"@.len()); }
    assert("image/gif"@ != "image/svg+xml"@) by { assert("image/gif"@.len() != "image/svg+xml"@.len()); }
    assert("image/webp"@ != "image/svg+xml"@) by { assert("image/webp"@.len() != "image/svg+xml"@.len()); }
    assert("image/x-icon"@ != "image/svg+xml"@) by { assert("image/x-icon"@.len() != "image/svg+xml"@.len()); }
    assert("font/woff"@ != "image/svg+xml"@) by { assert("font/woff"@.len() != "image/svg+xml"@.len()); }
    assert("font/woff2"@ != "image/svg+xml"@) by { assert("font/woff2"@.len() != "image/svg+xml"@.len()); }
    assert("text/plain; charset=utf-8"@ != "image/svg+xml"@) by { assert("text/plain; charset=utf-8"@.len() != "image/svg+xml"@.len()); }
    assert("application/xml"@ != "image/svg+xml"@) by { assert("application/xml"@.len() != "image/svg+xml"@.len()); }
    assert("application/manifest+json"@ != "image/svg+xml"@) by { assert("application/manifest+json"@.len() != "image/svg+xml"@.len()); }
    assert("application/octet-stream"@ != "image/svg+xml"@) by { assert("application/octet-stream"@.len() != "image/svg+xml"@.len()); }
    assert("html"@ != "svg"@) by { assert("html"@.len() != "svg"@.len()); }
    assert("css"@ != "svg"@) by { assert("css"@[0] != "svg"@[0]); }
    assert("js"@ != "svg"@) by { assert("js"@.len() != "svg"@.len()); }
    assert("json"@ != "svg"@) by { assert("json"@.len() != "svg"@.len()); }
    assert("png"@ != "svg"@) by { assert("png"@[0] != "svg"@[0]); }
    assert("jpg"@ != "svg"@) by { assert("jpg"@[0] != "svg"@[0]); }
    assert("jpeg"@ != "svg"@) by { assert("jpeg"@.len() != "svg"@.len()); }
    assert("gif"@ != "svg"@) by { assert("gif"@[0] != "svg"@[0]); }
    assert("webp"@ != "svg"@) by { assert("webp"@.len() != "svg"@.len()); }
    assert("ico"@ != "svg"@) by { assert("ico"@[0] != "svg"@[0]); }
    assert("woff"@ != "svg"@) by { assert("woff"@.len() != "svg"@.len()); }
    assert("woff2"@ != "svg"@) by { assert("woff2"@.len() != "svg"@.len()); }
    assert("txt"@ != "svg"@) by { assert("txt"@[0] != "svg"@[0]); }
    assert("xml"@ != "svg"@) by { assert("xml"@[0] != "svg"@[0]); }
    assert("webmanifest"@ != "svg"@) by { assert("webmanifest"@.len() != "svg"@.len()); }
    assert(spec_mime_for(None) == "application/octet-stream"@);
    match ext {
        None => {},
        Some(e) => {
            if e == "html"@ {
            } else if e == "css"@ {
            } else if e == "js"@ {
            } else if e == "json"@ {
            } else if e == "svg"@ {
            } else if e == "png"@ {
            } else if e == "jpg"@ {
            } else if e == "jpeg"@ {
            } else if e == "gif"@ {
            } else if e == "webp"@ {
            } else if e == "ico"@ {
            } else if e == "woff"@ {
            } else if e == "woff2"@ {
            } else if e == "txt"@ {
            } else if e == "xml"@ {
            } else if e == "webmanifest"@ {
            } else {
            }
        },
    }
}

proof fn lemma_media_png(ext: Option<Seq<char>>)
    ensures
        (spec_mime_for(ext) == "image/png"@) <==> (ext == Some("png"@)),
{
    reveal_strlit("html");
    reveal_strlit("css");
    reveal_strlit("js");
    reveal_strlit("json");
    reveal_strlit("svg");
    reveal_strlit("png");
    reveal_strlit("jpg");
    reveal_strlit("jpeg");
    reveal_strlit("gif");
    reveal_strlit("webp");
    reveal_strlit("ico");
    reveal_strlit("woff");
    reveal_strlit("woff2");
    reveal_strlit("txt");
    reveal_strlit("xml");
    reveal_strlit("webmanifest");
    reveal_strlit("text/html; charset=utf-8");
    reveal_strlit("text/css; charset=utf-8");
    reveal_strlit("text/javascript; charset=utf-8");
    reveal_strlit("application/json");
    reveal_strlit("image/svg+xml");
    reveal_strlit("image/png");
    reveal_strlit("image/jpeg");
    reveal_strlit("image/gif");
    reveal_strlit("image/webp");
    reveal_strlit("image/x-icon");
    reveal_strlit("font/woff");
    reveal_strlit("font/woff2");
    reveal_strlit("text/plain; charset=utf-8");
    reveal_strlit("application/xml");
    reveal_strlit("application/manifest+json");
    reveal_strlit("application/octet-stream");
    assert("text/html; charset=utf-8"@ != "image/png"@) by { assert("text/html; charset=utf-8"@.len() != "image/png"@.len()); }
    assert("text/css; charset=utf-8"@ != "image/png"@) by { assert("text/css; charset=utf-8"@.len() != "image/png"@.len()); }
    assert("text/javascript; charset=utf-8"@ != "image/png"@) by { assert("text/javascript; charset=utf-8"@.len() != "image/png"@.len()); }
    assert("application/json"@ != "image/png"@) by { assert("application/json"@.len() != "image/png"@.len()); }
    assert("image/svg+xml"@ != "image/png"@) by { assert("image/svg+xml"@.len() != "image/png"@.len()); }
    assert("image/jpeg"@ != "image/png"@) by { assert("image/jpeg"@.len() != "image/png"@.len()); }
    assert("image/gif"@ != "image/png"@) by { assert("image/gif"@[6] != "image/png"@[6]); }
    assert("image/webp"@ != "image/png"@) by { assert("image/webp"@.len() != "image/png"@.len()); }
    assert("image/x-icon"@ != "image/png"@) by { assert("image/x-icon"@.len() != "image/png"@.len()); }
    assert("font/woff"@ != "image/png"@) by { assert("font/woff"@[0] != "image/png"@[0]); }
    assert("font/woff2"@ != "image/png"@) by { assert("font/woff2"@.len() != "image/png"@.len()); }
    assert("text/plain; charset=utf-8"@ != "image/png"@) by { assert("text/plain; charset=utf-8"@.len() != "image/png"@.len()); }
    assert("application/xml"@ != "image/png"@) by { assert("application/xml"@.len() != "image/png"@.len()); }
    assert("application/manifest+json"@ != "image/png"@) by { assert("application/manifest+json"@.len() != "image/png"@.len()); }
    assert("application/octet-stream"@ != "image/png"@) by { assert("application/octet-stream"@.len() != "image/png"@.len()); }
    assert("html"@ != "png"@) by { assert("html"@.len() != "png"@.len()); }
    assert("css"@ != "png"@) by { assert("css"@[0] != "png"@[0]); }
    assert("js"@ != "png"@) by { assert("js"@.len() != "png"@.len()); }
    assert("json"@ != "png"@) by { assert("json"@.len() != "png"@.len()); }
    assert("svg"@ != "png"@) by { assert("svg"@[0] != "png"@[0]); }
    assert("jpg"@ != "png"@) by { assert("jpg"@[0] != "png"@[0]); }
    assert("jpeg"@ != "png"@) by { assert("jpeg"@.len() != "png"@.len()); }
    assert("gif"@ != "png"@) by { assert("gif"@[0] != "png"@[0]); }
    assert("webp"@ != "png"@) by { assert("webp"@.len() != "png"@.len()); }
    assert("ico"@ != "png"@) by { assert("ico"@[0] != "png"@[0]); }
    assert("woff"@ != "png"@) by { assert("woff"@.len() != "png"@.len()); }
    assert("woff2"@ != "png"@) by { assert("woff2"@.len() != "png"@.len()); }
    assert("txt"@ != "png"@) by { assert("txt"@[0] != "png"@[0]); }
    assert("xml"@ != "png"@) by { assert("xml"@[0] != "png"@[0]); }
    assert("webmanifest"@ != "png"@) by { assert("webmanifest"@.len() != "png"@.len()); }
    assert(spec_mime_for(None) == "application/octet-stream"@);
    match ext {
        None => {},
        Some(e) => {
            if e == "html"@ {
            } else if e == "css"@ {
            } else if e == "js"@ {
            } else if e == "json"@ {
            } else if e == "svg"@ {
            } else if e == "png"@ {
            } else if e == "jpg"@ {
            } else if e == "jpeg"@ {
            } else if e == "gif"@ {
            } else if e == "webp"@ {
            } else if e == "ico"@ {
            } else if e == "woff"@ {
            } else if e == "woff2"@ {
            } else if e == "txt"@ {
            } else if e == "xml"@ {
            } else if e == "webmanifest"@ {
            } else {
            }
        },
    }
}

proof fn lemma_media_jpg(ext: Option<Seq<char>>)
    ensures
        (spec_mime_for(ext) == "image/jpeg"@) <==> (ext == Some("jpg"@) || ext == Some("jpeg"@)),
{
    reveal_strlit("html");
    reveal_strlit("css");
    reveal_strlit("js");
    reveal_strlit("json");
    reveal_strlit("svg");
    reveal_strlit("png");
    reveal_strlit("jpg");
    reveal_strlit("jpeg");
    reveal_strlit("gif");
    reveal_strlit("webp");
    reveal_strlit("ico");
    reveal_strlit("woff");
    reveal_strlit("woff2");
    reveal_strlit("txt");
    reveal_strlit("xml");
    reveal_strlit("webmanifest");
    reveal_strlit("text/html; charset=utf-8");
    reveal_strlit("text/css; charset=utf-8");
    reveal_strlit("text/javascript; charset=utf-8");
    reveal_strlit("application/json");
    reveal_strlit("image/svg+xml");
    reveal_strlit("image/png");
    reveal_strlit("image/jpeg");
    reveal_strlit("image/gif");
    reveal_strlit("image/webp");
    reveal_strlit("image/x-icon");
    reveal_strlit("font/woff");
    reveal_strlit("font/woff2");
    reveal_strlit("text/plain; charset=utf-8");
    reveal_strlit("application/xml");
    reveal_strlit("application/manifest+json");
    reveal_strlit("application/octet-stream");
    assert("text/html; charset=utf-8"@ != "image/jpeg"@) by { assert("text/html; charset=utf-8"@.len() != "image/jpeg"@.len()); }
    assert("text/css; charset=utf-8"@ != "image/jpeg"@) by { assert("text/css; charset=utf-8"@.len() != "image/jpeg"@.len()); }
    assert("text/javascript; charset=utf-8"@ != "image/jpeg"@) by { assert("text/javascript; charset=utf-8"@.len() != "image/jpeg"@.len()); }
    assert("application/json"@ != "image/jpeg"@) by { assert("application/json"@.len() != "image/jpeg"@.len()); }
    assert("image/svg+xml"@ != "image/jpeg"@) by { assert("image/svg+xml"@.len() != "image/jpeg"@.len()); }
    assert("image/png"@ != "image/jpeg"@) by { assert("image/png"@.len() != "image/jpeg"@.len()); }
    assert("image/gif"@ != "image/jpeg"@) by { assert("image/gif"@.len() != "image/jpeg"@.len()); }
    assert("image/webp"@ != "image/jpeg"@) by { assert("image/webp"@[6] != "image/jpeg"@[6]); }
    assert("image/x-icon"@ != "image/jpeg"@) by { assert("image/x-icon"@.len() != "image/jpeg"@.len()); }
    assert("font/woff"@ != "image/jpeg"@) by { assert("font/woff"@.len() != "image/jpeg"@.len()); }
    assert("font/woff2"@ != "image/jpeg"@) by { assert("font/woff2"@[0] != "image/jpeg"@[0]); }
    assert("text/plain; charset=utf-8"@ != "image/jpeg"@) by { assert("text/plain; charset=utf-8"@.len() != "image/jpeg"@.len()); }
    assert("application/xml"@ != "image/jpeg"@) by { assert("application/xml"@.len() != "image/jpeg"@.len()); }
    assert("application/manifest+json"@ != "image/jpeg"@) by { assert("application/manifest+json"@.len() != "image/jpeg"@.len()); }
    assert("application/octet-stream"@ != "image/jpeg"@) by { assert("application/octet-stream"@.len() != "image/jpeg"@.len()); }
    assert("html"@ != "jpg"@) by { assert("html"@.len() != "jpg"@.len()); }
    assert("css"@ != "jpg"@) by { assert("css"@[0] != "jpg"@[0]); }
    assert("js"@ != "jpg"@) by { assert("js"@.len() != "jpg"@.len()); }
    assert("json"@ != "jpg"@) by { assert("json"@.len() != "jpg"@.len()); }
    assert("svg"@ != "jpg"@) by { assert("svg"@[0] != "jpg"@[0]); }
    assert("png"@ != "jpg"@) by { assert("png"@[0] != "jpg"@[0]); }
    assert("jpeg"@ != "jpg"@) by { assert("jpeg"@.len() != "jpg"@.len()); }
    assert("gif"@ != "jpg"@) by { assert("gif"@[0] != "jpg"@[0]); }
    assert("webp"@ != "jpg"@) by { assert("webp"@.len() != "jpg"@.len()); }
    assert("ico"@ != "jpg"@) by { assert("ico"@[0] != "jpg"@[0]); }
    assert("woff"@ != "jpg"@) by { assert("woff"@.len() != "jpg"@.len()); }
    assert("woff2"@ != "jpg"@) by { assert("woff2"@.len() != "jpg"@.len()); }
    assert("txt"@ != "jpg"@) by { assert("txt"@[0] != "jpg"@[0]); }
    assert("xml"@ != "jpg"@) by { assert("xml"@[0] != "jpg"@[0]); }
    assert("webmanifest"@ != "jpg"@) by { assert("webmanifest"@.len() != "jpg"@.len()); }
    assert("html"@ != "jpeg"@) by { assert("html"@[0] != "jpeg"@[0]); }
    assert("css"@ != "jpeg"@) by { assert("css"@.len() != "jpeg"@.len()); }
    assert("js"@ != "jpeg"@) by { assert("js"@.len() != "jpeg"@.len()); }
    assert("json"@ != "jpeg"@) by { assert("json"@[1] != "jpeg"@[1]); }
    assert("svg"@ != "jpeg"@) by { assert("svg"@.len() != "jpeg"@.len()); }
    assert("png"@ != "jpeg"@) by { assert("png"@.len() != "jpeg"@.len()); }
    assert("jpg"@ != "jpeg"@) by { assert("jpg"@.len() != "jpeg"@.len()); }
    assert("gif"@ != "jpeg"@) by { assert("gif"@.len() != "jpeg"@.len()); }
    assert("webp"@ != "jpeg"@) by { assert("webp"@[0] != "jpeg"@[0]); }
    assert("ico"@ != "jpeg"@) by { assert("ico"@.len() != "jpeg"@.len()); }
    assert("woff"@ != "jpeg"@) by { assert("woff"@[0] != "jpeg"@[0]); }
    assert("woff2"@ != "jpeg"@) by { assert("woff2"@.len() != "jpeg"@.len()); }
    assert("txt"@ != "jpeg"@) by { assert("txt"@.len() != "jpeg"@.len()); }
    assert("xml"@ != "jpeg"@) by { assert("xml"@.len() != "jpeg"@.len()); }
    assert("webmanifest"@ != "jpeg"@) by { assert("webmanifest"@.len() != "jpeg"@.len()); }
    assert(spec_mime_for(None) == "application/octet-stream"@);
    match ext {
        None => {},
        Some(e) => {
            if e == "html"@ {
            } else if e == "css"@ {
            } else if e == "js"@ {
            } else if e == "json"@ {
            } else if e == "svg"@ {
            } else if e == "png"@ {
            } else if e == "jpg"@ {
            } else if e == "jpeg"@ {
            } else if e == "gif"@ {
            } else if e == "webp"@ {
            } else if e == "ico"@ {
            } else if e == "woff"@ {
            } else if e == "woff2"@ {
            } else if e == "txt"@ {
            } else if e == "xml"@ {
            } else if e == "webmanifest"@ {
            } else {
            }
        },
    }
}

proof fn lemma_media_gif(ext: Option<Seq<char>>)
    ensures
        (spec_mime_for(ext) == "image/gif"@) <==> (ext == Some("gif"@)),
{
    reveal_strlit("html");
    reveal_strlit("css");
    reveal_strlit("js");
    reveal_strlit("json");
    reveal_strlit("svg");
    reveal_strlit("png");
    reveal_strlit("jpg");
    reveal_strlit("jpeg");
    reveal_strlit("gif");
    reveal_strlit("webp");
    reveal_strlit("ico");
    reveal_strlit("woff");
    reveal_strlit("woff2");
    reveal_strlit("txt");
    reveal_strlit("xml");
    reveal_strlit("webmanifest");
    reveal_strlit("text/html; charset=utf-8");
    reveal_strlit("text/css; charset=utf-8");
    reveal_strlit("text/javascript; charset=utf-8");
    reveal_strlit("application/json");
    reveal_strlit("image/svg+xml");
    reveal_strlit("image/png");
    reveal_strlit("image/jpeg");
    reveal_strlit("image/gif");
    reveal_strlit("image/webp");
    reveal_strlit("image/x-icon");
    reveal_strlit("font/woff");
    reveal_strlit("font/woff2");
    reveal_strlit("text/plain; charset=utf-8");
    reveal_strlit("application/xml");
    reveal_strlit("application/manifest+json");
    reveal_strlit("application/octet-stream");
    assert("text/html; charset=utf-8"@ != "image/gif"@) by { assert("text/html; charset=utf-8"@.len() != "image/gif"@.len()); }
    assert("text/css; charset=utf-8"@ != "image/gif"@) by { assert("text/css; charset=utf-8"@.len() != "image/gif"@.len()); }
    assert("text/javascript; charset=utf-8"@ != "image/gif"@) by { assert("text/javascript; charset=utf-8"@.len() != "image/gif"@.len()); }
    assert("application/json"@ != "image/gif"@) by { assert("application/json"@.len() != "image/gif"@.len()); }
    assert("image/svg+xml"@ != "image/gif"@) by { assert("image/svg+xml"@.len() != "image/gif"@.len()); }
    assert("image/png"@ != "image/gif"@) by { assert("image/png"@[6] != "image/gif"@[6]); }
    assert("image/jpeg"@ != "image/gif"@) by { assert("image/jpeg"@.len() != "image/gif"@.len()); }
    assert("image/webp"@ != "image/gif"@) by { assert("image/webp"@.len() != "image/gif"@.len()); }
    assert("image/x-icon"@ != "image/gif"@) by { assert("image/x-icon"@.len() != "image/gif"@.len()); }
    assert("font/woff"@ != "image/gif"@) by { assert("font/woff"@[0] != "image/gif"@[0]); }
    assert("font/woff2"@ != "image/gif"@) by { assert("font/woff2"@.len() != "image/gif"@.len()); }
    assert("text/plain; charset=utf-8"@ != "image/gif"@) by { assert("text/plain; charset=utf-8"@.len() != "image/gif"@.len()); }
    assert("application/xml"@ != "image/gif"@) by { assert("application/xml"@.len() != "image/gif"@.len()); }
    assert("application/manifest+json"@ != "image/gif"@) by { assert("application/manifest+json"@.len() != "image/gif"@.len()); }
    assert("application/octet-stream"@ != "image/gif"@) by { assert("application/octet-stream"@.len() != "image/gif"@.len()); }
    assert("html"@ != "gif"@) by { assert("html"@.len() != "gif"@.len()); }
    assert("css"@ != "gif"@) by { assert("css"@[0] != "gif"@[0]); }
    assert("js"@ != "gif"@) by { assert("js"@.len() != "gif"@.len()); }
    assert("json"@ != "gif"@) by { assert("json"@.len() != "gif"@.len()); }
    assert("svg"@ != "gif"@) by { assert("svg"@[0] != "gif"@[0]); }
    assert("png"@ != "gif"@) by { assert("png"@[0] != "gif"@[0]); }
    assert("jpg"@ != "gif"@) by { assert("jpg"@[0] != "gif"@[0]); }
    assert("jpeg"@ != "gif"@) by { assert("jpeg"@.len() != "gif"@.len()); }
    assert("webp"@ != "gif"@) by { assert("webp"@.len() != "gif"@.len()); }
    assert("ico"@ != "gif"@) by { assert("ico"@[0] != "gif"@[0]); }
    assert("woff"@ != "gif"@) by { assert("woff"@.len() != "gif"@.len()); }
    assert("woff2"@ != "gif"@) by { assert("woff2"@.len() != "gif"@.len()); }
    assert("txt"@ != "gif"@) by { assert("txt"@[0] != "gif"@[0]); }
    assert("xml"@ != "gif"@) by { assert("xml"@[0] != "gif"@[0]); }
    assert("webmanifest"@ != "gif"@) by { assert("webmanifest"@.len() != "gif"@.len()); }
    assert(spec_mime_for(None) == "application/octet-stream"@);
    match ext {
        None => {},
        Some(e) => {
            if e == "html"@ {
            } else if e == "css"@ {
            } else if e == "js"@ {
            } else if e == "json"@ {
            } else if e == "svg"@ {
            } else if e == "png"@ {
            } else if e == "jpg"@ {
            } else if e == "jpeg"@ {
            } else if e == "gif"@ {
            } else if e == "webp"@ {
            } else if e == "ico"@ {
            } else if e == "woff"@ {
            } else if e == "woff2"@ {
            } else if e == "txt"@ {
            } else if e == "xml"@ {
            } else if e == "webmanifest"@ {
            } else {
            }
        },
    }
}

proof fn lemma_media_webp(ext: Option<Seq<char>>)
    ensures
        (spec_mime_for(ext) == "image/webp"@) <==> (ext == Some("webp"@)),
{
    reveal_strlit("html");
    reveal_strlit("css");
    reveal_strlit("js");
    reveal_strlit("json");
    reveal_strlit("svg");
    reveal_strlit("png");
    reveal_strlit("jpg");
    reveal_strlit("jpeg");
    reveal_strlit("gif");
    reveal_strlit("webp");
    reveal_strlit("ico");
    reveal_strlit("woff");
    reveal_strlit("woff2");
    reveal_strlit("txt");
    reveal_strlit("xml");
    reveal_strlit("webmanifest");
    reveal_strlit("text/html; charset=utf-8");
    reveal_strlit("text/css; charset=utf-8");
    reveal_strlit("text/javascript; charset=utf-8");
    reveal_strlit("application/json");
    reveal_strlit("image/svg+xml");
    reveal_strlit("image/png");
    reveal_strlit("image/jpeg");
    reveal_strlit("image/gif");
    reveal_strlit("image/webp");
    reveal_strlit("image/x-icon");
    reveal_strlit("font/woff");
    reveal_strlit("font/woff2");
    reveal_strlit("text/plain; charset=utf-8");
    reveal_strlit("application/xml");
    reveal_strlit("application/manifest+json");
    reveal_strlit("application/octet-stream");
    assert("text/html; charset=utf-8"@ != "image/webp"@) by { assert("text/html; charset=utf-8"@.len() != "image/webp"@.len()); }
    assert("text/css; charset=utf-8"@ != "image/webp"@) by { assert("text/css; charset=utf-8"@.len() != "image/webp"@.len()); }
    assert("text/javascript; charset=utf-8"@ != "image/webp"@) by { assert("text/javascript; charset=utf-8"@.len() != "image/webp"@.len()); }
    assert("application/json"@ != "image/webp"@) by { assert("application/json"@.len() != "image/webp"@.len()); }
    assert("image/svg+xml"@ != "image/webp"@) by { assert("image/svg+xml"@.len() != "image/webp"@.len()); }
    assert("image/png"@ != "image/webp"@) by { assert("image/png"@.len() != "image/webp"@.len()); }
    assert("image/jpeg"@ != "image/webp"@) by { assert("image/jpeg"@[6] != "image/webp"@[6]); }
    assert("image/gif"@ != "image/webp"@) by { assert("image/gif"@.len() != "image/webp"@.len()); }
    assert("image/x-icon"@ != "image/webp"@) by { assert("image/x-icon"@.len() != "image/webp"@.len()); }
    assert("font/woff"@ != "image/webp"@) by { assert("font/woff"@.len() != "image/webp"@.len()); }
    assert("font/woff2"@ != "image/webp"@) by { assert("font/woff2"@[0] != "image/webp"@[0]); }
    assert("text/plain; charset=utf-8"@ != "image/webp"@) by { assert("text/plain; charset=utf-8"@.len() != "image/webp"@.len()); }
    assert("application/xml"@ != "image/webp"@) by { assert("application/xml"@.len() != "image/webp"@.len()); }
    assert("application/manifest+json"@ != "image/webp"@) by { assert("application/manifest+json"@.len() != "image/webp"@.len()); }
    assert("application/octet-stream"@ != "image/webp"@) by { assert("application/octet-stream"@.len() != "image/webp"@.len()); }
    assert("html"@ != "webp"@) by { assert("html"@[0] != "webp"@[0]); }
    assert("css"@ != "webp"@) by { assert("css"@.len() != "webp"@.len()); }
    assert("js"@ != "webp"@) by { assert("js"@.len() != "webp"@.len()); }
    assert("json"@ != "webp"@) by { assert("json"@[0] != "webp"@[0]); }
    assert("svg"@ != "webp"@) by { assert("svg"@.len() != "webp"@.len()); }
    assert("png"@ != "webp"@) by { assert("png"@.len() != "webp"@.len()); }
    assert("jpg"@ != "webp"@) by { assert("jpg"@.len() != "webp"@.len()); }
    assert("jpeg"@ != "webp"@) by { assert("jpeg"@[0] != "webp"@[0]); }
    assert("gif"@ != "webp"@) by { assert("gif"@.len() != "webp"@.len()); }
    assert("ico"@ != "webp"@) by { assert("ico"@.len() != "webp"@.len()); }
    assert("woff"@ != "webp"@) by { assert("woff"@[1] != "webp"@[1]); }
    assert("woff2"@ != "webp"@) by { assert("woff2"@.len() != "webp"@.len()); }
    assert("txt"@ != "webp"@) by { assert("txt"@.len() != "webp"@.len()); }
    assert("xml"@ != "webp"@) by { assert("xml"@.len() != "webp"@.len()); }
    assert("webmanifest"@ != "webp"@) by { assert("webmanifest"@.len() != "webp"@.len()); }
    assert(spec_mime_for(None) == "application/octet-stream"@);
    match ext {
        None => {},
        Some(e) => {
            if e == "html"@ {
            } else if e == "css"@ {
            } else if e == "js"@ {
            } else if e == "json"@ {
            } else if e == "svg"@ {
            } else if e == "png"@ {
            } else if e == "jpg"@ {
            } else if e == "jpeg"@ {
            } else if e == "gif"@ {
            } else if e == "webp"@ {
            } else if e == "ico"@ {
            } else if e == "woff"@ {
            } else if e == "woff2"@ {
            } else if e == "txt"@ {
            } else if e == "xml"@ {
            } else if e == "webmanifest"@ {
            } else {
            }
        },
    }
}

proof fn lemma_media_ico(ext: Option<Seq<char>>)
    ensures
        (spec_mime_for(ext) == "image/x-icon"@) <==> (ext == Some("ico"@)),
{
    reveal_strlit("html");
    reveal_strlit("css");
    reveal_strlit("js");
    reveal_strlit("json");
    reveal_strlit("svg");
    reveal_strlit("png");
    reveal_strlit("jpg");
    reveal_strlit("jpeg");
    reveal_strlit("gif");
    reveal_strlit("webp");
    reveal_strlit("ico");
    reveal_strlit("woff");
    reveal_strlit("woff2");
    reveal_strlit("txt");
    reveal_strlit("xml");
    reveal_strlit("webmanifest");
    reveal_strlit("text/html; charset=utf-8");
    reveal_strlit("text/css; charset=utf-8");
    reveal_strlit("text/javascript; charset=utf-8");
    reveal_strlit("application/json");
    reveal_strlit("image/svg+xml");
    reveal_strlit("image/png");
    reveal_strlit("image/jpeg");
    reveal_strlit("image/gif");
    reveal_strlit("image/webp");
    reveal_strlit("image/x-icon");
    reveal_strlit("font/woff");
    reveal_strlit("font/woff2");
    reveal_strlit("text/plain; charset=utf-8");
    reveal_strlit("application/xml");
    reveal_strlit("application/manifest+json");
    reveal_strlit("application/octet-stream");
    assert("text/html; charset=utf-8"@ != "image/x-icon"@) by { assert("text/html; charset=utf-8"@.len() != "image/x-icon"@.len()); }
    assert("text/css; charset=utf-8"@ != "image/x-icon"@) by { assert("text/css; charset=utf-8"@.len() != "image/x-icon"@.len()); }
    assert("text/javascript; charset=utf-8"@ != "image/x-icon"@) by { assert("text/javascript; charset=utf-8"@.len() != "image/x-icon"@.len()); }
    assert("application/json"@ != "image/x-icon"@) by { assert("application/json"@.len() != "image/x-icon"@.len()); }
    assert("image/svg+xml"@ != "image/x-icon"@) by { assert("image/svg+xml"@.len() != "image/x-icon"@.len()); }
    assert("image/png"@ != "image/x-icon"@) by { assert("image/png"@.len() != "image/x-icon"@.len()); }
    assert("image/jpeg"@ != "image/x-icon"@) by { assert("image/jpeg"@.len() != "image/x-icon"@.len()); }
    assert("image/gif"@ != "image/x-icon"@) by { assert("image/gif"@.len() != "image/x-icon"@.len()); }
    assert("image/webp"@ != "image/x-icon"@) by { assert("image/webp"@.len() != "image/x-icon"@.len()); }
    assert("font/woff"@ != "image/x-icon"@) by { assert("font/woff"@.len() != "image/x-icon"@.len()); }
    assert("font/woff2"@ != "image/x-icon"@) by { assert("font/woff2"@.len() != "image/x-icon"@.len()); }
    assert("text/plain; charset=utf-8"@ != "image/x-icon"@) by { assert("text/plain; charset=utf-8"@.len() != "image/x-icon"@.len()); }
    assert("application/xml"@ != "image/x-icon"@) by { assert("application/xml"@.len() != "image/x-icon"@.len()); }
    assert("application/manifest+json"@ != "image/x-icon"@) by { assert("application/manifest+json"@.len() != "image/x-icon"@.len()); }
    assert("application/octet-stream"@ != "image/x-icon"@) by { assert("application/octet-stream"@.len() != "image/x-icon"@.len()); }
    assert("html"@ != "ico"@) by { assert("html"@.len() != "ico"@.len()); }
    assert("css"@ != "ico"@) by { assert("css"@[0] != "ico"@[0]); }
    assert("js"@ != "ico"@) by { assert("js"@.len() != "ico"@.len()); }
    assert("json"@ != "ico"@) by { assert("json"@.len() != "ico"@.len()); }
    assert("svg"@ != "ico"@) by { assert("svg"@[0] != "ico"@[0]); }
    assert("png"@ != "ico"@) by { assert("png"@[0] != "ico"@[0]); }
    assert("jpg"@ != "ico"@) by { assert("jpg"@[0] != "ico"@[0]); }
    assert("jpeg"@ != "ico"@) by { assert("jpeg"@.len() != "ico"@.len()); }
    assert("gif"@ != "ico"@) by { assert("gif"@[0] != "ico"@[0]); }
    assert("webp"@ != "ico"@) by { assert("webp"@.len() != "ico"@.len()); }
    assert("woff"@ != "ico"@) by { assert("woff"@.len() != "ico"@.len()); }
    assert("woff2"@ != "ico"@) by { assert("woff2"@.len() != "ico"@.len()); }
    assert("txt"@ != "ico"@) by { assert("txt"@[0] != "ico"@[0]); }
    assert("xml"@ != "ico"@) by { assert("xml"@[0] != "ico"@[0]); }
    assert("webmanifest"@ != "ico"@) by { assert("webmanifest"@.len() != "ico"@.len()); }
    assert(spec_mime_for(None) == "application/octet-stream"@);
    match ext {
        None => {},
        Some(e) => {
            if e == "html"@ {
            } else if e == "css"@ {
            } else if e == "js"@ {
            } else if e == "json"@ {
            } else if e == "svg"@ {
            } else if e == "png"@ {
            } else if e == "jpg"@ {
            } else if e == "jpeg"@ {
            } else if e == "gif"@ {
            } else if e == "webp"@ {
            } else if e == "ico"@ {
            } else if e == "woff"@ {
            } else if e == "woff2"@ {
            } else if e == "txt"@ {
            } else if e == "xml"@ {
            } else if e == "webmanifest"@ {
            } else {
            }
        },
    }
}

proof fn lemma_media_woff(ext: Option<Seq<char>>)
    ensures
        (spec_mime_for(ext) == "font/woff"@) <==> (ext == Some("woff"@)),
{
    reveal_strlit("html");
    reveal_strlit("css");
    reveal_strlit("js");
    reveal_strlit("json");
    reveal_strlit("svg");
    reveal_strlit("png");
    reveal_strlit("jpg");
    reveal_strlit("jpeg");
    reveal_strlit("gif");
    reveal_strlit("webp");
    reveal_strlit("ico");
    reveal_strlit("woff");
    reveal_strlit("woff2");
    reveal_strlit("txt");
    reveal_strlit("xml");
    reveal_strlit("webmanifest");
    reveal_strlit("text/html; charset=utf-8");
    reveal_strlit("text/css; charset=utf-8");
    reveal_strlit("text/javascript; charset=utf-8");
    reveal_strlit("application/json");
    reveal_strlit("image/svg+xml");
    reveal_strlit("image/png");
    reveal_strlit("image/jpeg");
    reveal_strlit("image/gif");
    reveal_strlit("image/webp");
    reveal_strlit("image/x-icon");
    reveal_strlit("font/woff");
    reveal_strlit("font/woff2");
    reveal_strlit("text/plain; charset=utf-8");
    reveal_strlit("application/xml");
    reveal_strlit("application/manifest+json");
    reveal_strlit("application/octet-stream");
    assert("text/html; charset=utf-8"@ != "font/woff"@) by { assert("text/html; charset=utf-8"@.len() != "font/woff"@.len()); }
    assert("text/css; charset=utf-8"@ != "font/woff"@) by { assert("text/css; charset=utf-8"@.len() != "font/woff"@.len()); }
    assert("text/javascript; charset=utf-8"@ != "font/woff"@) by { assert("text/javascript; charset=utf-8"@.len() != "font/woff"@.len()); }
    assert("application/json"@ != "font/woff"@) by { assert("application/json"@.len() != "font/woff"@.len()); }
    assert("image/svg+xml"@ != "font/woff"@) by { assert("image/svg+xml"@.len() != "font/woff"@.len()); }
    assert("image/png"@ != "font/woff"@) by { assert("image/png"@[0] != "font/woff"@[0]); }
    assert("image/jpeg"@ != "font/woff"@) by { assert("image/jpeg"@.len() != "font/woff"@.len()); }
    assert("image/gif"@ != "font/woff"@) by { assert("image/gif"@[0] != "font/woff"@[0]); }
    assert("image/webp"@ != "font/woff"@) by { assert("image/webp"@.len() != "font/woff"@.len()); }
    assert("image/x-icon"@ != "font/woff"@) by { assert("image/x-icon"@.len() != "font/woff"@.len()); }
    assert("font/woff2"@ != "font/woff"@) by { assert("font/woff2"@.len() != "font/woff"@.len()); }
    assert("text/plain; charset=utf-8"@ != "font/woff"@) by { assert("text/plain; charset=utf-8"@.len() != "font/woff"@.len()); }
    assert("application/xml"@ != "font/woff"@) by { assert("application/xml"@.len() != "font/woff"@.len()); }
    assert("application/manifest+json"@ != "font/woff"@) by { assert("application/manifest+json"@.len() != "font/woff"@.len()); }
    assert("application/octet-stream"@ != "font/woff"@) by { assert("application/octet-stream"@.len() != "font/woff"@.len()); }
    assert("html"@ != "woff"@) by { assert("html"@[0] != "woff"@[0]); }
    assert("css"@ != "woff"@) by { assert("css"@.len() != "woff"@.len()); }
    assert("js"@ != "woff"@) by { assert("js"@.len() != "woff"@.len()); }
    assert("json"@ != "woff"@) by { assert("json"@[0] != "woff"@[0]); }
    assert("svg"@ != "woff"@) by { assert("svg"@.len() != "woff"@.len()); }
    assert("png"@ != "woff"@) by { assert("png"@.len() != "woff"@.len()); }
    assert("jpg"@ != "woff"@) by { assert("jpg"@.len() != "woff"@.len()); }
    assert("jpeg"@ != "woff"@) by { assert("jpeg"@[0] != "woff"@[0]); }
    assert("gif"@ != "woff"@) by { assert("gif"@.len() != "woff"@.len()); }
    assert("webp"@ != "woff"@) by { assert("webp"@[1] != "woff"@[1]); }
    assert("ico"@ != "woff"@) by { assert("ico"@.len() != "woff"@.len()); }
    assert("woff2"@ != "woff"@) by { assert("woff2"@.len() != "woff"@.len()); }
    assert("txt"@ != "woff"@) by { assert("txt"@.len() != "woff"@.len()); }
    assert("xml"@ != "woff"@) by { assert("xml"@.len() != "woff"@.len()); }
    assert("webmanifest"@ != "woff"@) by { assert("webmanifest"@.len() != "woff"@.len()); }
    assert(spec_mime_for(None) == "application/octet-stream"@);
    match ext {
        None => {},
        Some(e) => {
            if e == "html"@ {
            } else if e == "css"@ {
            } else if e == "js"@ {
            } else if e == "json"@ {
            } else if e == "svg"@ {
            } else if e == "png"@ {
            } else if e == "jpg"@ {
            } else if e == "jpeg"@ {
            } else if e == "gif"@ {
            } else if e == "webp"@ {
            } else if e == "ico"@ {
            } else if e == "woff"@ {
            } else if e == "woff2"@ {
            } else if e == "txt"@ {
            } else if e == "xml"@ {
            } else if e == "webmanifest"@ {
            } else {
            }
        },
    }
}

proof fn lemma_media_woff2(ext: Option<Seq<char>>)
    ensures
        (spec_mime_for(ext) == "font/woff2"@) <==> (ext == Some("woff2"@)),
{
    reveal_strlit("html");
    reveal_strlit("css");
    reveal_strlit("js");
    reveal_strlit("json");
    reveal_strlit("svg");
    reveal_strlit("png");
    reveal_strlit("jpg");
    reveal_strlit("jpeg");
    reveal_strlit("gif");
    reveal_strlit("webp");
    reveal_strlit("ico");
    reveal_strlit("woff");
    reveal_strlit("woff2");
    reveal_strlit("txt");
    reveal_strlit("xml");
    reveal_strlit("webmanifest");
    reveal_strlit("text/html; charset=utf-8");
    reveal_strlit("text/css; charset=utf-8");
    reveal_strlit("text/javascript; charset=utf-8");
    reveal_strlit("application/json");
    reveal_strlit("image/svg+xml");
    reveal_strlit("image/png");
    reveal_strlit("image/jpeg");
    reveal_strlit("image/gif");
    reveal_strlit("image/webp");
    reveal_strlit("image/x-icon");
    reveal_strlit("font/woff");
    reveal_strlit("font/woff2");
    reveal_strlit("text/plain; charset=utf-8");
    reveal_strlit("application/xml");
    reveal_strlit("application/manifest+json");
    reveal_strlit("application/octet-stream");
    assert("text/html; charset=utf-8"@ != "font/woff2"@) by { assert("text/html; charset=utf-8"@.len() != "font/woff2"@.len()); }
    assert("text/css; charset=utf-8"@ != "font/woff2"@) by { assert("text/css; charset=utf-8"@.len() != "font/woff2"@.len()); }
    assert("text/javascript; charset=utf-8"@ != "font/woff2"@) by { assert("text/javascript; charset=utf-8"@.len() != "font/woff2"@.len()); }
    assert("application/json"@ != "font/woff2"@) by { assert("application/json"@.len() != "font/woff2"@.len()); }
    assert("image/svg+xml"@ != "font/woff2"@) by { assert("image/svg+xml"@.len() != "font/woff2"@.len()); }
    assert("image/png"@ != "font/woff2"@) by { assert("image/png"@.len() != "font/woff2"@.len()); }
    assert("image/jpeg"@ != "font/woff2"@) by { assert("image/jpeg"@[0] != "font/woff2"@[0]); }
    assert("image/gif"@ != "font/woff2"@) by { assert("image/gif"@.len() != "font/woff2"@.len()); }
    assert("image/webp"@ != "font/woff2"@) by { assert("image/webp"@[0] != "font/woff2"@[0]); }
    assert("image/x-icon"@ != "font/woff2"@) by { assert("image/x-icon"@.len() != "font/woff2"@.len()); }
    assert("font/woff"@ != "font/woff2"@) by { assert("font/woff"@.len() != "font/woff2"@.len()); }
    assert("text/plain; charset=utf-8"@ != "font/woff2"@) by { assert("text/plain; charset=utf-8"@.len() != "font/woff2"@.len()); }
    assert("application/xml"@ != "font/woff2"@) by { assert("application/xml"@.len() != "font/woff2"@.len()); }
    assert("application/manifest+json"@ != "font/woff2"@) by { assert("application/manifest+json"@.len() != "font/woff2"@.len()); }
    assert("application/octet-stream"@ != "font/woff2"@) by { assert("application/octet-stream"@.len() != "font/woff2"@.len()); }
    assert("html"@ != "woff2"@) by { assert("html"@.len() != "woff2"@.len()); }
    assert("css"@ != "woff2"@) by { assert("css"@.len() != "woff2"@.len()); }
    assert("js"@ != "woff2"@) by { assert("js"@.len() != "woff2"@.len()); }
    assert("json"@ != "woff2"@) by { assert("json"@.len() != "woff2"@.len()); }
    assert("svg"@ != "woff2"@) by { assert("svg"@.len() != "woff2"@.len()); }
    assert("png"@ != "woff2"@) by { assert("png"@.len() != "woff2"@.len()); }
    assert("jpg"@ != "woff2"@) by { assert("jpg"@.len() != "woff2"@.len()); }
    assert("jpeg"@ != "woff2"@) by { assert("jpeg"@.len() != "woff2"@.len()); }
    assert("gif"@ != "woff2"@) by { assert("gif"@.len() != "woff2"@.len()); }
    assert("webp"@ != "woff2"@) by { assert("webp"@.len() != "woff2"@.len()); }
    assert("ico"@ != "woff2"@) by { assert("ico"@.len() != "woff2"@.len()); }
    assert("woff"@ != "woff2"@) by { assert("woff"@.len() != "woff2"@.len()); }
    assert("txt"@ != "woff2"@) by { assert("txt"@.len() != "woff2"@.len()); }
    assert("xml"@ != "woff2"@) by { assert("xml"@.len() != "woff2"@.len()); }
    assert("webmanifest"@ != "woff2"@) by { assert("webmanifest"@.len() != "woff2"@.len()); }
    assert(spec_mime_for(None) == "application/octet-stream"@);
    match ext {
        None => {},
        Some(e) => {
            if e == "html"@ {
            } else if e == "css"@ {
            } else if e == "js"@ {
            } else if e == "json"@ {
            } else if e == "svg"@ {
            } else if e == "png"@ {
            } else if e == "jpg"@ {
            } else if e == "jpeg"@ {
            } else if e == "gif"@ {
            } else if e == "webp"@ {
            } else if e == "ico"@ {
            } else if e == "woff"@ {
            } else if e == "woff2"@ {
            } else if e == "txt"@ {
            } else if e == "xml"@ {
            } else if e == "webmanifest"@ {
            } else {
            }
        },
    }
}

proof fn lemma_media_txt(ext: Option<Seq<char>>)
    ensures
        (spec_mime_for(ext) == "text/plain; charset=utf-8"@) <==> (ext == Some("txt"@)),
{
    reveal_strlit("html");
    reveal_strlit("css");
    reveal_strlit("js");
    reveal_strlit("json");
    reveal_strlit("svg");
    reveal_strlit("png");
    reveal_strlit("jpg");
    reveal_strlit("jpeg");
    reveal_strlit("gif");
    reveal_strlit("webp");
    reveal_strlit("ico");
    reveal_strlit("woff");
    reveal_strlit("woff2");
    reveal_strlit("txt");
    reveal_strlit("xml");
    reveal_strlit("webmanifest");
    reveal_strlit("text/html; charset=utf-8");
    reveal_strlit("text/css; charset=utf-8");
    reveal_strlit("text/javascript; charset=utf-8");
    reveal_strlit("application/json");
    reveal_strlit("image/svg+xml");
    reveal_strlit("image/png");
    reveal_strlit("image/jpeg");
    reveal_strlit("image/gif");
    reveal_strlit("image/webp");
    reveal_strlit("image/x-icon");
    reveal_strlit("font/woff");
    reveal_strlit("font/woff2");
    reveal_strlit("text/plain; charset=utf-8");
    reveal_strlit("application/xml");
    reveal_strlit("application/manifest+json");
    reveal_strlit("application/octet-stream");
    assert("text/html; charset=utf-8"@ != "text/plain; charset=utf-8"@) by { assert("text/html; charset=utf-8"@.len() != "text/plain; charset=utf-8"@.len()); }
    assert("text/css; charset=utf-8"@ != "text/plain; charset=utf-8"@) by { assert("text/css; charset=utf-8"@.len() != "text/plain; charset=utf-8"@.len()); }
    assert("text/javascript; charset=utf-8"@ != "text/plain; charset=utf-8"@) by { assert("text/javascript; charset=utf-8"@.len() != "text/plain; charset=utf-8"@.len()); }
    assert("application/json"@ != "text/plain; charset=utf-8"@) by { assert("application/json"@.len() != "text/plain; charset=utf-8"@.len()); }
    assert("image/svg+xml"@ != "text/plain; charset=utf-8"@) by { assert("image/svg+xml"@.len() != "text/plain; charset=utf-8"@.len()); }
    assert("image/png"@ != "text/plain; charset=utf-8"@) by { assert("image/png"@.len() != "text/plain; charset=utf-8"@.len()); }
    assert("image/jpeg"@ != "text/plain; charset=utf-8"@) by { assert("image/jpeg"@.len() != "text/plain; charset=utf-8"@.len()); }
    assert("image/gif"@ != "text/plain; charset=utf-8"@) by { assert("image/gif"@.len() != "text/plain; charset=utf-8"@.len()); }
    assert("image/webp"@ != "text/plain; charset=utf-8"@) by { assert("image/webp"@.len() != "text/plain; charset=utf-8"@.len()); }
    assert("image/x-icon"@ != "text/plain; charset=utf-8"@) by { assert("image/x-icon"@.len() != "text/plain; charset=utf-8"@.len()); }
    assert("font/woff"@ != "text/plain; charset=utf-8"@) by { assert("font/woff"@.len() != "text/plain; charset=utf-8"@.len()); }
    assert("font/woff2"@ != "text/plain; charset=utf-8"@) by { assert("font/woff2"@.len() != "text/plain; charset=utf-8"@.len()); }
    assert("application/xml"@ != "text/plain; charset=utf-8"@) by { assert("application/xml"@.len() != "text/plain; charset=utf-8"@.len()); }
    assert("application/manifest+json"@ != "text/plain; charset=utf-8"@) by { assert("application/manifest+json"@[0] != "text/plain; charset=utf-8"@[0]); }
    assert("application/octet-stream"@ != "text/plain; charset=utf-8"@) by { assert("application/octet-stream"@.len() != "text/plain; charset=utf-8"@.len()); }
    assert("html"@ != "txt"@) by { assert("html"@.len() != "txt"@.len()); }
    assert("css"@ != "txt"@) by { assert("css"@[0] != "txt"@[0]); }
    assert("js"@ != "txt"@) by { assert("js"@.len() != "txt"@.len()); }
    assert("json"@ != "txt"@) by { assert("json"@.len() != "txt"@.len()); }
    assert("svg"@ != "txt"@) by { assert("svg"@[0] != "txt"@[0]); }
    assert("png"@ != "txt"@) by { assert("png"@[0] != "txt"@[0]); }
    assert("jpg"@ != "txt"@) by { assert("jpg"@[0] != "txt"@[0]); }
    assert("jpeg"@ != "txt"@) by { assert("jpeg"@.len() != "txt"@.len()); }
    assert("gif"@ != "txt"@) by { assert("gif"@[0] != "txt"@[0]); }
    assert("webp"@ != "txt"@) by { assert("webp"@.len() != "txt"@.len()); }
    assert("ico"@ != "txt"@) by { assert("ico"@[0] != "txt"@[0]); }
    assert("woff"@ != "txt"@) by { assert("woff"@.len() != "txt"@.len()); }
    assert("woff2"@ != "txt"@) by { assert("woff2"@.len() != "txt"@.len()); }
    assert("xml"@ != "txt"@) by { assert("xml"@[0] != "txt"@[0]); }
    assert("webmanifest"@ != "txt"@) by { assert("webmanifest"@.len() != "txt"@.len()); }
    assert(spec_mime_for(None) == "application/octet-stream"@);
    match ext {
        None => {},
        Some(e) => {
            if e == "html"@ {
            } else if e == "css"@ {
            } else if e == "js"@ {
            } else if e == "json"@ {
            } else if e == "svg"@ {
            } else if e == "png"@ {
            } else if e == "jpg"@ {
            } else if e == "jpeg"@ {
            } else if e == "gif"@ {
            } else if e == "webp"@ {
            } else if e == "ico"@ {
            } else if e == "woff"@ {
            } else if e == "woff2"@ {
            } else if e == "txt"@ {
            } else if e == "xml"@ {
            } else if e == "webmanifest"@ {
            } else {
            }
        },
    }
}

proof fn lemma_media_xml(ext: Option<Seq<char>>)
    ensures
        (spec_mime_for(ext) == "application/xml"@) <==> (ext == Some("xml"@)),
{
    reveal_strlit("html");
    reveal_strlit("css");
    reveal_strlit("js");
    reveal_strlit("json");
    reveal_strlit("svg");
    reveal_strlit("png");
    reveal_strlit("jpg");
    reveal_strlit("jpeg");
    reveal_strlit("gif");
    reveal_strlit("webp");
    reveal_strlit("ico");
    reveal_strlit("woff");
    reveal_strlit("woff2");
    reveal_strlit("txt");
    reveal_strlit("xml");
    reveal_strlit("webmanifest");
    reveal_strlit("text/html; charset=utf-8");
    reveal_strlit("text/css; charset=utf-8");
    reveal_strlit("text/javascript; charset=utf-8");
    reveal_strlit("application/json");
    reveal_strlit("image/svg+xml");
    reveal_strlit("image/png");
    reveal_strlit("image/jpeg");
    reveal_strlit("image/gif");
    reveal_strlit("image/webp");
    reveal_strlit("image/x-icon");
    reveal_strlit("font/woff");
    reveal_strlit("font/woff2");
    reveal_strlit("text/plain; charset=utf-8");
    reveal_strlit("application/xml");
    reveal_strlit("application/manifest+json");
    reveal_strlit("application/octet-stream");
    assert("text/html; charset=utf-8"@ != "application/xml"@) by { assert("text/html; charset=utf-8"@.len() != "application/xml"@.len()); }
    assert("text/css; charset=utf-8"@ != "application/xml"@) by { assert("text/css; charset=utf-8"@.len() != "application/xml"@.len()); }
    assert("text/javascript; charset=utf-8"@ != "application/xml"@) by { assert("text/javascript; charset=utf-8"@.len() != "application/xml"@.len()); }
    assert("application/json"@ != "application/xml"@) by { assert("application/json"@.len() != "application/xml"@.len()); }
    assert("image/svg+xml"@ != "application/xml"@) by { assert("image/svg+xml"@.len() != "application/xml"@.len()); }
    assert("image/png"@ != "application/xml"@) by { assert("image/png"@.len() != "application/xml"@.len()); }
    assert("image/jpeg"@ != "application/xml"@) by { assert("image/jpeg"@.len() != "application/xml"@.len()); }
    assert("image/gif"@ != "application/xml"@) by { assert("image/gif"@.len() != "application/xml"@.len()); }
    assert("image/webp"@ != "application/xml"@) by { assert("image/webp"@.len() != "application/xml"@.len()); }
    assert("image/x-icon"@ != "application/xml"@) by { assert("image/x-icon"@.len() != "application/xml"@.len()); }
    assert("font/woff"@ != "application/xml"@) by { assert("font/woff"@.len() != "application/xml"@.len()); }
    assert("font/woff2"@ != "application/xml"@) by { assert("font/woff2"@.len() != "application/xml"@.len()); }
    assert("text/plain; charset=utf-8"@ != "application/xml"@) by { assert("text/plain; charset=utf-8"@.len() != "application/xml"@.len()); }
    assert("application/manifest+json"@ != "application/xml"@) by { assert("application/manifest+json"@.len() != "application/xml"@.len()); }
    assert("application/octet-stream"@ != "application/xml"@) by { assert("application/octet-stream"@.len() != "application/xml"@.len()); }
    assert("html"@ != "xml"@) by { assert("html"@.len() != "xml"@.len()); }
    assert("css"@ != "xml"@) by { assert("css"@[0] != "xml"@[0]); }
    assert("js"@ != "xml"@) by { assert("js"@.len() != "xml"@.len()); }
    assert("json"@ != "xml"@) by { assert("json"@.len() != "xml"@.len()); }
    assert("svg"@ != "xml"@) by { assert("svg"@[0] != "xml"@[0]); }
    assert("png"@ != "xml"@) by { assert("png"@[0] != "xml"@[0]); }
    assert("jpg"@ != "xml"@) by { assert("jpg"@[0] != "xml"@[0]); }
    assert("jpeg"@ != "xml"@) by { assert("jpeg"@.len() != "xml"@.len()); }
    assert("gif"@ != "xml"@) by { assert("gif"@[0] != "xml"@[0]); }
    assert("webp"@ != "xml"@) by { assert("webp"@.len() != "xml"@.len()); }
    assert("ico"@ != "xml"@) by { assert("ico"@[0] != "xml"@[0]); }
    assert("woff"@ != "xml"@) by { assert("woff"@.len() != "xml"@.len()); }
    assert("woff2"@ != "xml"@) by { assert("woff2"@.len() != "xml"@.len()); }
    assert("txt"@ != "xml"@) by { assert("txt"@[0] != "xml"@[0]); }
    assert("webmanifest"@ != "xml"@) by { assert("webmanifest"@.len() != "xml"@.len()); }
    assert(spec_mime_for(None) == "application/octet-stream"@);
    match ext {
        None => {},
        Some(e) => {
            if e == "html"@ {
            } else if e == "css"@ {
            } else if e == "js"@ {
            } else if e == "json"@ {
            } else if e == "svg"@ {
            } else if e == "png"@ {
            } else if e == "jpg"@ {
            } else if e == "jpeg"@ {
            } else if e == "gif"@ {
            } else if e == "webp"@ {
            } else if e == "ico"@ {
            } else if e == "woff"@ {
            } else if e == "woff2"@ {
            } else if e == "txt"@ {
            } else if e == "xml"@ {
            } else if e == "webmanifest"@ {
            } else {
            }
        },
    }
}

proof fn lemma_media_webmanifest(ext: Option<Seq<char>>)
    ensures
        (spec_mime_for(ext) == "application/manifest+json"@) <==> (ext == Some("webmanifest"@)),
{
    reveal_strlit("html");
    reveal_strlit("css");
    reveal_strlit("js");
    reveal_strlit("json");
    reveal_strlit("svg");
    reveal_strlit("png");
    reveal_strlit("jpg");
    reveal_strlit("jpeg");
    reveal_strlit("gif");
    reveal_strlit("webp");
    reveal_strlit("ico");
    reveal_strlit("woff");
    reveal_strlit("woff2");
    reveal_strlit("txt");
    reveal_strlit("xml");
    reveal_strlit("webmanifest");
    reveal_strlit("text/html; charset=utf-8");
    reveal_strlit("text/css; charset=utf-8");
    reveal_strlit("text/javascript; charset=utf-8");
    reveal_strlit("application/json");
    reveal_strlit("image/svg+xml");
    reveal_strlit("image/png");
    reveal_strlit("image/jpeg");
    reveal_strlit("image/gif");
    reveal_strlit("image/webp");
    reveal_strlit("image/x-icon");
    reveal_strlit("font/woff");
    reveal_strlit("font/woff2");
    reveal_strlit("text/plain; charset=utf-8");
    reveal_strlit("application/xml");
    reveal_strlit("application/manifest+json");
    reveal_strlit("application/octet-stream");
    assert("text/html; charset=utf-8"@ != "application/manifest+json"@) by { assert("text/html; charset=utf-8"@.len() != "application/manifest+json"@.len()); }
    assert("text/css; charset=utf-8"@ != "application/manifest+json"@) by { assert("text/css; charset=utf-8"@.len() != "application/manifest+json"@.len()); }
    assert("text/javascript; charset=utf-8"@ != "application/manifest+json"@) by { assert("text/javascript; charset=utf-8"@.len() != "application/manifest+json"@.len()); }
    assert("application/json"@ != "application/manifest+json"@) by { assert("application/json"@.len() != "application/manifest+json"@.len()); }
    assert("image/svg+xml"@ != "application/manifest+json"@) by { assert("image/svg+xml"@.len() != "application/manifest+json"@.len()); }
    assert("image/png"@ != "application/manifest+json"@) by { assert("image/png"@.len() != "application/manifest+json"@.len()); }
    assert("image/jpeg"@ != "application/manifest+json"@) by { assert("image/jpeg"@.len() != "application/manifest+json"@.len()); }
    assert("image/gif"@ != "application/manifest+json"@) by { assert("image/gif"@.len() != "application/manifest+json"@.len()); }
    assert("image/webp"@ != "application/manifest+json"@) by { assert("image/webp"@.len() != "application/manifest+json"@.len()); }
    assert("image/x-icon"@ != "application/manifest+json"@) by { assert("image/x-icon"@.len() != "application/manifest+json"@.len()); }
    assert("font/woff"@ != "application/manifest+json"@) by { assert("font/woff"@.len() != "application/manifest+json"@.len()); }
    assert("font/woff2"@ != "application/manifest+json"@) by { assert("font/woff2"@.len() != "application/manifest+json"@.len()); }
    assert("text/plain; charset=utf-8"@ != "application/manifest+json"@) by { assert("text/plain; charset=utf-8"@[0] != "application/manifest+json"@[0]); }
    assert("application/xml"@ != "application/manifest+json"@) by { assert("application/xml"@.len() != "application/manifest+json"@.len()); }
    assert("application/octet-stream"@ != "application/manifest+json"@) by { assert("application/octet-stream"@.len() != "application/manifest+json"@.len()); }
    assert("html"@ != "webmanifest"@) by { assert("html"@.len() != "webmanifest"@.len()); }
    assert("css"@ != "webmanifest"@) by { assert("css"@.len() != "webmanifest"@.len()); }
    assert("js"@ != "webmanifest"@) by { assert("js"@.len() != "webmanifest"@.len()); }
    assert("json"@ != "webmanifest"@) by { assert("json"@.len() != "webmanifest"@.len()); }
    assert("svg"@ != "webmanifest"@) by { assert("svg"@.len() != "webmanifest"@.len()); }
    assert("png"@ != "webmanifest"@) by { assert("png"@.len() != "webmanifest"@.len()); }
    assert("jpg"@ != "webmanifest"@) by { assert("jpg"@.len() != "webmanifest"@.len()); }
    assert("jpeg"@ != "webmanifest"@) by { assert("jpeg"@.len() != "webmanifest"@.len()); }
    assert("gif"@ != "webmanifest"@) by { assert("gif"@.len() != "webmanifest"@.len()); }
    assert("webp"@ != "webmanifest"@) by { assert("webp"@.len() != "webmanifest"@.len()); }
    assert("ico"@ != "webmanifest"@) by { assert("ico"@.len() != "webmanifest"@.len()); }
    assert("woff"@ != "webmanifest"@) by { assert("woff"@.len() != "webmanifest"@.len()); }
    assert("woff2"@ != "webmanifest"@) by { assert("woff2"@.len() != "webmanifest"@.len()); }
    assert("txt"@ != "webmanifest"@) by { assert("txt"@.len() != "webmanifest"@.len()); }
    assert("xml"@ != "webmanifest"@) by { assert("xml"@.len() != "webmanifest"@.len()); }
    assert(spec_mime_for(None) == "application/octet-stream"@);
    match ext {
        None => {},
        Some(e) => {
            if e == "html"@ {
            } else if e == "css"@ {
            } else if e == "js"@ {
            } else if e == "json"@ {
            } else if e == "svg"@ {
            } else if e == "png"@ {
            } else if e == "jpg"@ {
            } else if e == "jpeg"@ {
            } else if e == "gif"@ {
            } else if e == "webp"@ {
            } else if e == "ico"@ {
            } else if e == "woff"@ {
            } else if e == "woff2"@ {
            } else if e == "txt"@ {
            } else if e == "xml"@ {
            } else if e == "webmanifest"@ {
            } else {
            }
        },
    }
}

/// Every media type the server sends names one kind of file: a file is
/// served as a stylesheet exactly when its extension is `css`, as a
/// script exactly when it is `js`, as HTML exactly when it is `html`,
/// and so on for each known extension (`jpg` and `jpeg` both being
/// JPEG).
pub proof fn law_media_type_names_its_extension(ext: Option<Seq<char>>)
    ensures
        (spec_mime_for(ext) == "text/html; charset=utf-8"@) <==> (ext == Some("html"@)),
        (spec_mime_for(ext) == "text/css; charset=utf-8"@) <==> (ext == Some("css"@)),
        (spec_mime_for(ext) == "text/javascript; charset=utf-8"@) <==> (ext == Some("js"@)),
        (spec_mime_for(ext) == "application/json"@) <==> (ext == Some("json"@)),
        (spec_mime_for(ext) == "image/svg+xml"@) <==> (ext == Some("svg"@)),
        (spec_mime_for(ext) == "image/png"@) <==> (ext == Some("png"@)),
        (spec_mime_for(ext) == "image/jpeg"@) <==> (ext == Some("jpg"@) || ext == Some("jpeg"@)),
        (spec_mime_for(ext) == "image/gif"@) <==> (ext == Some("gif"@)),
        (spec_mime_for(ext) == "image/webp"@) <==> (ext == Some("webp"@)),
        (spec_mime_for(ext) == "image/x-icon"@) <==> (ext == Some("ico"@)),
        (spec_mime_for(ext) == "font/woff"@) <==> (ext == Some("woff"@)),
        (spec_mime_for(ext) == "font/woff2"@) <==> (ext == Some("woff2"@)),
        (spec_mime_for(ext) == "text/plain; charset=utf-8"@) <==> (ext == Some("txt"@)),
        (spec_mime_for(ext) == "application/xml"@) <==> (ext == Some("xml"@)),
        (spec_mime_for(ext) == "application/manifest+json"@) <==> (ext == Some("webmanifest"@)),
{
    lemma_media_html(ext);
    lemma_media_css(ext);
    lemma_media_js(ext);
    lemma_media_json(ext);
    lemma_media_svg(ext);
    lemma_media_png(ext);
    lemma_media_jpg(ext);
    lemma_media_gif(ext);
    lemma_media_webp(ext);
    lemma_media_ico(ext);
    lemma_media_woff(ext);
    lemma_media_woff2(ext);
    lemma_media_txt(ext);
    lemma_media_xml(ext);
    lemma_media_webmanifest(ext);
}

} // verus!
