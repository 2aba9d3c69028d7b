use rustpress::serve::{inject_livereload, mime_for, percent_decode, serve_plan, ServePlan, LIVERELOAD_SCRIPT};

// traversal probes against the serve path resolver logic
#[test]
fn traversal_segments_rejected() {
    // mirror of serve_file's segment loop: ".." must never resolve
    let rejects = ["/../etc/passwd", "/a/../../etc/passwd", "/%2e%2e/etc/passwd"];
    for path in rejects {
        let decoded = percent(path);
        let mut escapes = false;
        for seg in decoded.split('/') {
            if seg == ".." {
                escapes = true;
            }
        }
        assert!(escapes, "{path} should decode to an escaping path");
    }
}

fn percent(s: &str) -> String {
    // copy of serve::percent_decode semantics
    let b = s.as_bytes();
    let mut out = Vec::with_capacity(b.len());
    let mut i = 0;
    while i < b.len() {
        if b[i] == b'%' && i + 2 < b.len() + 1 && i + 2 <= b.len() {
            if let (Some(hex), Ok(v)) = (
                b.get(i + 1..i + 3),
                u8::from_str_radix(std::str::from_utf8(&b[i + 1..i + 3]).unwrap_or("zz"), 16),
            ) {
                let _ = hex;
                out.push(v);
                i += 3;
                continue;
            }
        }
        out.push(b[i]);
        i += 1;
    }
    String::from_utf8_lossy(&out).into_owned()
}

#[test]
fn library_decoder_agrees_on_traversal_probes() {
    for path in ["/../etc/passwd", "/a/../../etc/passwd", "/%2e%2e/etc/passwd"] {
        assert!(matches!(serve_plan(path), ServePlan::NotFound), "{path}");
    }
    assert_eq!(percent_decode("/%2e%2e/x").as_deref(), Some("/../x"));
}

#[test]
fn percent_decoding_rules() {
    assert_eq!(percent_decode("a%20b").as_deref(), Some("a b"));
    assert_eq!(percent_decode("%41%6a").as_deref(), Some("Aj"));
    assert_eq!(percent_decode("%+f").as_deref(), Some("\u{f}"));
    // a trailing `%` without two more bytes stays literal
    assert_eq!(percent_decode("50%").as_deref(), Some("50%"));
    assert_eq!(percent_decode("%4").as_deref(), Some("%4"));
    // an invalid escape fails the whole path
    assert_eq!(percent_decode("%zz"), None);
    // decoded bytes must be UTF-8
    assert_eq!(percent_decode("%ff"), None);
    assert_eq!(percent_decode("%c3%a9").as_deref(), Some("é"));
}

#[test]
fn serve_plans() {
    match serve_plan("/") {
        ServePlan::File { segments, html } => {
            assert_eq!(segments, vec!["index.html".to_string()]);
            assert!(html);
        }
        other => panic!("{other:?}"),
    }
    match serve_plan("/guide/") {
        ServePlan::File { segments, html } => {
            assert_eq!(segments, vec!["guide".to_string(), "index.html".to_string()]);
            assert!(html);
        }
        other => panic!("{other:?}"),
    }
    match serve_plan("/css//./app.css") {
        ServePlan::File { segments, html } => {
            assert_eq!(segments, vec!["css".to_string(), "app.css".to_string()]);
            assert!(!html);
        }
        other => panic!("{other:?}"),
    }
    assert!(matches!(serve_plan("/a%5cb"), ServePlan::NotFound));
    assert!(matches!(serve_plan("/%zz"), ServePlan::BadEncoding));
    // percent-encoded dot still counts as an HTML page
    match serve_plan("/x%2ehtml") {
        ServePlan::File { html, .. } => assert!(html),
        other => panic!("{other:?}"),
    }
}

#[test]
fn mime_types() {
    assert_eq!(mime_for(Some("html")), "text/html; charset=utf-8");
    assert_eq!(mime_for(Some("jpeg")), "image/jpeg");
    assert_eq!(mime_for(Some("woff2")), "font/woff2");
    assert_eq!(mime_for(Some("bin")), "application/octet-stream");
    assert_eq!(mime_for(None), "application/octet-stream");
}

#[test]
fn livereload_goes_before_the_last_body_close() {
    let out = inject_livereload(b"<html><body>x</body></html>".to_vec());
    let expected = format!("<html><body>x{}</body></html>", LIVERELOAD_SCRIPT);
    assert_eq!(out, expected.into_bytes());
    let out = inject_livereload(b"</body>a</body>".to_vec());
    assert_eq!(out, format!("</body>a{}</body>", LIVERELOAD_SCRIPT).into_bytes());
    // no closing tag, or not UTF-8: appended
    let out = inject_livereload(b"<p>x</p>".to_vec());
    assert_eq!(out, format!("<p>x</p>{}", LIVERELOAD_SCRIPT).into_bytes());
    let mut bad = vec![0xffu8];
    bad.extend_from_slice(b"</body>");
    let mut expected = bad.clone();
    expected.extend_from_slice(LIVERELOAD_SCRIPT.as_bytes());
    assert_eq!(inject_livereload(bad), expected);
}
