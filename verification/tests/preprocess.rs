use rustpress::markdown::preprocess::{
    after_includes, code_include_block, expand_containers, extract_region, fence_marker_for, include_step,
    md_include_target, parse_code_include, paired_badge_html, rewrite_badges, rewrite_fences, rewrite_info,
    self_badge_html, strip_ansi, IncludeAction, Preprocess,
};

fn containers(md: &str) -> String {
    expand_containers(md)
}

#[test]
fn tip_container_with_default_and_custom_title() {
    let out = containers("::: tip\nhi **bold**\n:::\n");
    assert!(out.contains("<div class=\"custom-block tip\">"), "{out}");
    assert!(out.contains("<p class=\"custom-block-title\">TIP</p>"));
    assert!(out.contains("hi **bold**"));
    let out = containers("::: warning SERVER REQUIRED\nx\n:::\n");
    assert!(out.contains("<p class=\"custom-block-title\">SERVER REQUIRED</p>"), "{out}");
    let out = containers("::: tip {no-title}\nx\n:::\n");
    assert!(!out.contains("custom-block-title"), "{out}");
}

#[test]
fn details_and_code_group() {
    let out = containers("::: details Click me {open}\nx\n:::\n");
    assert!(out.contains("<details class=\"custom-block details\" open>"), "{out}");
    assert!(out.contains("<summary>Click me</summary>"));
    let out = containers("::: code-group\n```js [a]\n1\n```\n:::\n");
    assert!(out.contains("<div class=\"vp-code-group\">"), "{out}");
    assert!(out.contains("<div class=\"blocks\">"));
    assert!(out.contains("</div>\n</div>"));
}

#[test]
fn nested_containers_stack() {
    let out = containers(":::: info\nouter\n\n::: tip\ninner\n:::\n\n::::\n");
    let outer = out.find("<div class=\"custom-block info\">").unwrap();
    let inner = out.find("<div class=\"custom-block tip\">").unwrap();
    let inner_close = out.find("</div>").unwrap();
    assert!(outer < inner && inner < inner_close, "{out}");
    assert_eq!(out.matches("</div>").count(), 2);
}

#[test]
fn containers_inside_fences_untouched() {
    let out = containers("````md\n::: tip\nliteral\n:::\n````\n");
    assert!(!out.contains("custom-block"), "{out}");
    assert!(out.contains("::: tip"));
}

#[test]
fn fence_info_rewrites() {
    assert_eq!(rewrite_info("js"), "gdcode lang=js");
    assert_eq!(rewrite_info("js [npm]"), "gdcode lang=js label=npm");
    assert_eq!(rewrite_info("js{1,3-4}"), "gdcode lang=js hl=1,3-4");
    assert_eq!(rewrite_info("js {4}"), "gdcode lang=js hl=4");
    assert_eq!(rewrite_info("md:line-numbers"), "gdcode lang=md");
    assert_eq!(rewrite_info("vue [Layout.vue]"), "gdcode lang=vue label=Layout.vue");
    assert_eq!(rewrite_info(""), "gdcode");
    // non-numeric braces are not line specs: left alone
    assert_eq!(rewrite_info("jsonc { \"n\": 2 }"), "gdcode lang=jsonc");
}

#[test]
fn fenced_example_fences_not_rewritten() {
    let md = "````md\n```js [x]\n1\n```\n````\n";
    let out = rewrite_fences(md);
    // the OUTER fence is real and gets the sentinel; the example
    // fence inside stays literal
    assert!(out.contains("```js [x]"), "{out}");
    assert_eq!(out.matches("gdcode").count(), 1, "{out}");
}

#[test]
fn badge_rewrites() {
    let out = rewrite_badges("## `useData` <Badge type=\"info\" text=\"composable\" />\n");
    assert!(out.contains("<span class=\"VPBadge info\">composable</span>"), "{out}");
    let out = rewrite_badges("<Badge type=\"warning\">careful</Badge>\n");
    assert!(out.contains("<span class=\"VPBadge warning\">careful</span>"), "{out}");
    let out = rewrite_badges("<Badge text=\"plain\" />\n");
    assert!(out.contains("<span class=\"VPBadge tip\">plain</span>"), "{out}");
    // inside fences: literal
    let out = rewrite_badges("```md\n<Badge type=\"info\" text=\"x\" />\n```\n");
    assert!(out.contains("<Badge"), "{out}");
}

#[test]
fn ansi_and_region_extraction() {
    assert_eq!(strip_ansi("\x1b[32mok\x1b[0m\n"), "ok\n");
    let src = "// #region setup\nconst a = 1;\n// #endregion\nrest\n";
    assert_eq!(extract_region(src, "setup").unwrap(), "const a = 1;\n");
}

#[test]
fn md_include_target_parses() {
    // "./"-prefixed paths join fine as-is
    assert_eq!(md_include_target("<!--@include: ./parts/x.md-->").unwrap(), "./parts/x.md");
    assert_eq!(md_include_target("<!--@include: parts/x.md-->").unwrap(), "parts/x.md");
}

#[test]
fn container_directly_after_paragraph_no_blank() {
    let out = expand_containers("a paragraph\n::: tip\ninner\n:::\nafter\n");
    assert!(out.contains("<div class=\"custom-block tip\">"), "{out}");
    assert!(out.contains("</div>"));
}

#[test]
fn adjacent_containers() {
    let out = expand_containers("::: tip\na\n:::\n::: warning\nb\n:::\n");
    assert_eq!(out.matches("<div class=\"custom-block").count(), 2, "{out}");
    assert_eq!(out.matches("</div>").count(), 2, "{out}");
}

#[test]
fn tilde_fences_protected() {
    let out = expand_containers("~~~\n::: tip\n~~~\n::: info\nreal\n:::\n");
    // ::: inside the tilde fence is literal; the real one expands
    assert!(out.contains("::: tip"), "{out}");
    assert!(out.contains("<div class=\"custom-block info\">"), "{out}");
}

#[test]
fn fence_with_trailing_spaces_and_info_closer() {
    // closer with trailing spaces; opener with info string
    let out = expand_containers("```js \n::: tip\n``` \n");
    assert!(out.contains("::: tip"), "container inside fence stays literal: {out}");
}

#[test]
fn unbalanced_container_closed_at_eof() {
    let out = expand_containers("::: tip\nnever closed\n");
    assert_eq!(out.matches("<div").count(), out.matches("</div>").count(), "{out}");
}

#[test]
fn info_rewrites_edge_forms() {
    assert_eq!(rewrite_info("vue{1-2}"), "gdcode lang=vue hl=1-2");
    assert_eq!(rewrite_info("sh [npm]"), "gdcode lang=sh label=npm");
    // label containing ']' — first bracket group only
    assert_eq!(rewrite_info("js [a[b]]"), "gdcode lang=js label=a[b");
    // lang with dashes/dots survives
    assert_eq!(rewrite_info("objective-c++"), "gdcode lang=objective-c++");
    // :line-numbers=N mid-token
    assert_eq!(rewrite_info("md:line-numbers=2"), "gdcode lang=md");
}

#[test]
fn badge_html_pieces() {
    assert_eq!(self_badge_html("type=\"info\" text=\"a<b\""), "<span class=\"VPBadge info\">a&lt;b</span>");
    assert_eq!(self_badge_html(""), "<span class=\"VPBadge tip\"></span>");
    assert_eq!(paired_badge_html("type=\"danger\"", "  x  "), "<span class=\"VPBadge danger\">x</span>");
    // a line without badges is unchanged (plus its newline)
    assert_eq!(rewrite_badges("plain text"), "plain text\n");
}

#[test]
fn fence_marker_outgrows_backtick_runs() {
    assert_eq!(fence_marker_for("no ticks"), "```");
    assert_eq!(fence_marker_for("````x"), "`````");
}

#[test]
fn code_include_lines_parse() {
    let ci = parse_code_include("<<< @/snippets/x.ts#setup [Setup]").unwrap();
    assert_eq!(ci.target, "snippets/x.ts");
    assert!(ci.from_root);
    assert_eq!(ci.region.as_deref(), Some("setup"));
    assert_eq!(ci.label.as_deref(), Some("Setup"));
    let ci = parse_code_include("<<< ../y.js").unwrap();
    assert_eq!(ci.target, "../y.js");
    assert!(!ci.from_root);
    assert!(ci.region.is_none() && ci.label.is_none());
    let ci = parse_code_include("<<< ./z.js{2}").unwrap();
    assert_eq!((ci.target.as_str(), ci.lines.as_str(), ci.lang.as_deref()), ("./z.js", "2", None));
    let ci = parse_code_include("<<< @/s/x.cs#reg{1,2,4-6 c#:line-numbers} [Demo]").unwrap();
    assert_eq!(ci.target, "s/x.cs");
    assert_eq!(ci.region.as_deref(), Some("reg"));
    assert_eq!(ci.lines, "1,2,4-6");
    assert_eq!(ci.lang.as_deref(), Some("c#:line-numbers"));
    assert_eq!(ci.label.as_deref(), Some("Demo"));
    let ci = parse_code_include("<<< ./t.ts{ts:line-numbers}").unwrap();
    assert_eq!((ci.lines.as_str(), ci.lang.as_deref()), ("", Some("ts:line-numbers")));
    // a language with a space, or a brace inside the path, stays literal
    assert!(parse_code_include("<<< ./z.js{1 a b}").is_none());
    assert!(parse_code_include("<<< ./{x}/z.js").is_none());
}

#[test]
fn code_include_blocks() {
    let ci = parse_code_include("<<< ./a.ts [file]").unwrap();
    assert_eq!(code_include_block("let a = 1;", "ts", &ci).unwrap(), "```ts [file]\nlet a = 1;\n```\n");
    let ci = parse_code_include("<<< ./a.ts#missing").unwrap();
    assert!(code_include_block("let a = 1;\n", "ts", &ci).is_none());
    let ci = parse_code_include("<<< ./a.ts{1,3-4}").unwrap();
    assert_eq!(code_include_block("a\nb\nc\nd\n", "ts", &ci).unwrap(), "```ts{1,3-4}\na\nb\nc\nd\n```\n");
    let ci = parse_code_include("<<< ./a.cs{2 c#}").unwrap();
    assert_eq!(code_include_block("x\n", "cs", &ci).unwrap(), "```c#{2}\nx\n```\n");
}

#[test]
fn include_steps_follow_fences() {
    let (f, a) = include_step(None, "```md\n", 0);
    assert!(f.is_some() && matches!(a, IncludeAction::Keep));
    let (f2, a) = include_step(f, "<!--@include: ./x.md-->\n", 0);
    assert!(f2.is_some());
    match a {
        IncludeAction::Verbatim(p) => assert_eq!(p, "./x.md"),
        other => panic!("{other:?}"),
    }
    let (f2, a) = include_step(f2, "plain line\n", 0);
    assert!(f2.is_some() && matches!(a, IncludeAction::Keep));
    let (f3, _) = include_step(f2, "```\n", 0);
    assert!(f3.is_none());
    match include_step(None, "<!--@include: ./x.md-->\n", 0).1 {
        IncludeAction::Markdown(p) => assert_eq!(p, "./x.md"),
        other => panic!("{other:?}"),
    }
    assert!(matches!(include_step(None, "<!--@include: ./x.md-->\n", 8).1, IncludeAction::TooDeep(_)));
    assert!(matches!(include_step(None, "<<< ./a.js\n", 0).1, IncludeAction::Code(_)));
}

#[test]
fn passes_after_includes_compose() {
    let out = after_includes("::: tip\n```js{1}\nx\n```\n<Badge text=\"b\" />\n:::\n");
    assert!(out.contains("<div class=\"custom-block tip\">"), "{out}");
    assert!(out.contains("``` gdcode lang=js hl=1"), "{out}");
    assert!(out.contains("<span class=\"VPBadge tip\">b</span>"), "{out}");
}

#[test]
fn include_files_resolve_against_page_dir_or_site_root() {
    let pre = Preprocess { site_root: "/site".into(), content_dir: "/site/content".into() };
    assert_eq!(pre.page_dir("guide/x.md"), "/site/content/guide");
    assert_eq!(pre.page_dir("x.md"), "/site/content/");
    let ci = parse_code_include("<<< @/snippets/a.ts").unwrap();
    assert_eq!(pre.code_include_file("guide/x.md", &ci), "/site/snippets/a.ts");
    let ci = parse_code_include("<<< ../b.js [b]").unwrap();
    assert_eq!(pre.code_include_file("guide/x.md", &ci), "/site/content/guide/../b.js");
    assert_eq!(pre.markdown_include_file("guide/x.md", "./part.md"), "/site/content/guide/./part.md");
}

#[test]
fn raw_container_is_a_plain_vp_raw_wrapper() {
    let out = expand_containers("::: raw\n<b>embedded</b>\n:::\n");
    assert!(out.contains("<div class=\"vp-raw\">"), "{out}");
    assert!(out.contains("<b>embedded</b>"));
    assert!(!out.contains("custom-block"), "{out}");
    assert!(out.contains("</div>"));
}

#[test]
fn indented_fence_openers_keep_indent_and_marker_run() {
    assert_eq!(rewrite_fences("  ```js\n  x\n  ```\n"), "  ``` gdcode lang=js\n  x\n  ```\n");
    assert_eq!(rewrite_fences("````md [a]\n````\n"), "```` gdcode lang=md label=a\n````\n");
}

#[test]
fn ansi_sequences_strip_exactly() {
    assert_eq!(strip_ansi("a\x1b[1;31mred\x1b[0m b"), "ared b");
    assert_eq!(strip_ansi("\x1b[?25l\x1b[2 q"), "");
    // an escape that is not a complete sequence stays
    assert_eq!(strip_ansi("\x1b[12"), "\x1b[12");
    assert_eq!(strip_ansi("\x1bX"), "\x1bX");
    assert_eq!(strip_ansi("\x1b\x1b[mz"), "\x1bz");
    assert_eq!(strip_ansi("plain"), "plain");
}

#[test]
fn badge_spans_replace_every_badge() {
    assert_eq!(
        rewrite_badges("x <Badge type=\"info\" text=\"a\" /> y <Badge text=\"b\"/>\n"),
        "x <span class=\"VPBadge info\">a</span> y <span class=\"VPBadge tip\">b</span>\n"
    );
    assert_eq!(
        rewrite_badges("<Badge type=\"warning\"> careful </Badge> and <Badge type=\"danger\">x</Badge>\n"),
        "<span class=\"VPBadge warning\">careful</span> and <span class=\"VPBadge danger\">x</span>\n"
    );
}

#[test]
fn containers_balance_and_close_innermost_first() {
    let out = expand_containers("::: tip\n::: warning\nx\n:::\n");
    assert_eq!(out.matches("<div class=\"custom-block ").count(), 2);
    assert_eq!(out.matches("</div>").count(), 2);
    let warning = out.find("custom-block warning").unwrap();
    let tip = out.find("custom-block tip").unwrap();
    assert!(tip < warning);
    // a closer shorter than the innermost marker stays text; the container closes at the end
    let short = expand_containers("::::: details\nx\n:::\n");
    assert!(short.contains("x\n:::\n"));
    assert!(short.ends_with("</details>\n\n"));
    assert_eq!(short.matches("<details").count(), 1);
}

#[test]
fn nested_open_containers_all_close_their_tags() {
    let out = expand_containers("::::: code-group\n:::: details More {open}\n::: warning\ntext\n");
    assert_eq!(out.matches("<div").count(), out.matches("</div>").count(), "{out}");
    assert_eq!(out.matches("<details").count(), out.matches("</details>").count(), "{out}");
    assert_eq!(out.matches("<div").count(), 3);
    assert!(out.ends_with('\n'));
}
