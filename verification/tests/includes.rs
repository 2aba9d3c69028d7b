use rustpress::markdown::includes::{extension_of, select_include, split_target, ReadFile, RunError};
use rustpress::markdown::preprocess::{Preprocess, PreprocessError};

fn pre() -> Preprocess {
    Preprocess { site_root: "/site".into(), content_dir: "/site/content".into() }
}

/// Runs the pass, answering each file it asks for from `files` (keyed by
/// content-relative path; `@/` files by site-relative path).
fn run_with(files: &[(&str, &str)], body: &str) -> Result<String, PreprocessError> {
    let p = pre();
    let mut reads: Vec<ReadFile> = Vec::new();
    loop {
        match p.run(body, "page.md", &reads) {
            Ok(md) => return Ok(md),
            Err(RunError::Failed(e)) => return Err(e),
            Err(RunError::Unread(path)) => {
                let key = path
                    .trim_start_matches("/site/content/")
                    .trim_start_matches("/site/")
                    .trim_start_matches("./")
                    .to_string();
                let content = match files.iter().find(|(k, _)| *k == key) {
                    Some((_, c)) => Ok(c.to_string()),
                    None => Err("No such file or directory".to_string()),
                };
                reads.push(ReadFile { path, content });
            }
        }
    }
}

#[test]
fn markdown_include_selectors() {
    let out = run_with(
        &[("parts/basics.md", "line one\nline two\nline three\nline four\n")],
        "A\n\n<!--@include: ./parts/basics.md{2,3}-->\n\nB\n",
    )
    .unwrap();
    assert!(out.contains("line two") && out.contains("line three"));
    assert!(!out.contains("line one") && !out.contains("line four"), "range applied");

    let out = run_with(
        &[(
            "parts/sections.md",
            "# Top\n\nintro\n\n## My Base Section\n\nbase body\n\n### My Sub Section\n\nsub body\n\n## Another Section\n\nother body\n",
        )],
        "<!--@include: ./parts/sections.md#my-base-section-->\n",
    )
    .unwrap();
    assert!(out.contains("base body") && out.contains("sub body"), "section + nested");
    assert!(!out.contains("other body"), "stops at same-level heading");
    assert!(!out.contains("intro"), "starts at the matched heading");

    let out = run_with(
        &[("parts/r.md", "// #region demo\nkept line\n// #endregion\ndropped\n")],
        "<!--@include: ./parts/r.md#demo-->\n",
    )
    .unwrap();
    assert!(out.contains("kept line") && !out.contains("dropped"), "region selected");
}

#[test]
fn include_directive_inside_code_fence_inserts_verbatim() {
    let out = run_with(&[("snip.txt", "raw text line\n")], "```md\n<!--@include: ./snip.txt-->\n```\n").unwrap();
    assert!(out.contains("raw text line"), "fence include expanded");
    assert!(!out.contains("<!--@include"), "directive itself must not appear");
}

#[test]
fn plain_markdown_include_is_spliced_and_resolved() {
    let out = run_with(
        &[("a.md", "from a\n<!--@include: ./b.md-->"), ("b.md", "from b")],
        "top\n<!--@include: ./a.md-->\nbottom\n",
    )
    .unwrap();
    assert_eq!(out, "top\nfrom a\nfrom b\nbottom\n");
}

#[test]
fn run_names_the_file_it_needs() {
    match pre().run("x\n<!--@include: ./a.md-->\n", "guide/page.md", &Vec::new()) {
        Err(RunError::Unread(p)) => assert_eq!(p, "/site/content/guide/./a.md"),
        other => panic!("{other:?}"),
    }
}

#[test]
fn unreadable_markdown_include_fails_with_the_path() {
    match run_with(&[], "<!--@include: ./missing.md-->\n") {
        Err(PreprocessError::Read { path, message }) => {
            assert_eq!(path, "/site/content/./missing.md");
            assert_eq!(message, "No such file or directory");
        }
        other => panic!("{other:?}"),
    }
}

#[test]
fn self_inclusion_stops_at_the_depth_limit() {
    match run_with(&[("loop.md", "<!--@include: ./loop.md-->\n")], "<!--@include: ./loop.md-->\n") {
        Err(PreprocessError::Depth { path }) => assert_eq!(path, "./loop.md"),
        other => panic!("{other:?}"),
    }
}

#[test]
fn code_include_becomes_a_fenced_block() {
    let out = run_with(&[("snippets/x.ts", "let a = 1;\n")], "<<< @/snippets/x.ts\n").unwrap();
    assert_eq!(out, "``` gdcode lang=ts\nlet a = 1;\n```\n");
    // an unreadable code include stays literal
    let out = run_with(&[], "<<< @/snippets/none.ts\n").unwrap();
    assert_eq!(out, "<<< @/snippets/none.ts\n");
}

#[test]
fn code_block_content_is_not_include_processed() {
    let out = run_with(
        &[("snippets/doc.md", "<!--@include: ./other.md-->\n")],
        "<<< @/snippets/doc.md\n",
    )
    .unwrap();
    assert!(out.contains("<!--@include: ./other.md-->"), "{out}");
}

#[test]
fn targets_split_into_path_anchor_and_range() {
    let (p, a, r) = split_target("./a.md#sec{2,}");
    assert_eq!(p, "./a.md");
    assert_eq!(a.as_deref(), Some("sec"));
    assert_eq!(r, Some((Some(2), None)));
    let (p, a, r) = split_target("./a.md{,4}");
    assert_eq!((p.as_str(), a, r), ("./a.md", None, Some((None, Some(4)))));
    let (p, a, r) = split_target("./b{x}.md");
    assert_eq!((p.as_str(), a, r), ("./b{x}.md", None, None));
    let (p, a, r) = split_target("./c.md#");
    assert_eq!((p.as_str(), a, r), ("./c.md#", None, None));
}

#[test]
fn selection_by_heading_id_range_and_fallback() {
    let text = "# A\nintro\n## Install {#setup}\nstep\n### Detail\nmore\n## Next\nend\n";
    assert_eq!(select_include(text, &Some("setup".into()), None), "step\n### Detail\nmore\n");
    assert_eq!(select_include(text, &Some("a".into()), None), "intro\n## Install {#setup}\nstep\n### Detail\nmore\n## Next\nend\n");
    assert_eq!(select_include(text, &Some("nowhere".into()), None), text);
    assert_eq!(select_include(text, &None, Some((Some(7), None))), "## Next\nend\n");
}

#[test]
fn extensions_follow_path_rules() {
    assert_eq!(extension_of("/a/b/file.ts"), "ts");
    assert_eq!(extension_of("/a/b.d/file"), "");
    assert_eq!(extension_of("/a/.bashrc"), "");
    assert_eq!(extension_of("x.tar.gz"), "gz");
}
