use rustpress::markdown::grammars::{grammar_for, Grammar, Grammars};
use rustpress::markdown::highlight::{
    parse_line_spec, segments_from_steps, segments_ordered_v, syntax_css, tk_class, FenceSpec, HighlightStep,
    LineNumbers, SgrState,
};
use rustpress::markdown::syntax_theme::{
    load_chain, theme_chain, ChainStep, RawStyle, RawTheme, SyntaxTheme, ThemeError, ThemeFile, ThemeStyle, TomlValue,
};

#[test]
fn sgr_segments_carry_state_and_reset() {
    let mut s = SgrState::default();
    let segs = s.segments("\x1b[1m\x1b[36mhi\x1b[0m there");
    assert_eq!(
        segs,
        vec![
            ("ansi-bold ansi-fg-cyan".into(), "hi".into()),
            ("".into(), " there".into()),
        ]
    );
}

#[test]
fn truecolor_consumes_exactly_five_params() {
    // 38;2;R;G;B is five parameters: the trailing code after it must
    // survive (a bold here was being swallowed)
    let mut s = SgrState::default();
    let segs = s.segments("\x1b[38;2;255;0;0;1mB");
    assert_eq!(segs, vec![("ansi-bold".into(), "B".into())]);
}

#[test]
fn junk_params_do_not_reset() {
    let mut s = SgrState::default();
    let segs = s.segments("\x1b[1m\x1b[38:5:2mB");
    assert_eq!(segs, vec![("ansi-bold".into(), "B".into())]);
}

#[test]
fn unterminated_csi_is_dropped_not_emitted() {
    let mut s = SgrState::default();
    let segs = s.segments("ok\x1b[38;2;2");
    assert_eq!(segs, vec![("".into(), "ok".into())]);
}

#[test]
fn sgr_state_carries_across_lines() {
    let mut s = SgrState::default();
    let first = s.segments("\x1b[31mred");
    assert_eq!(first, vec![("ansi-fg-red".into(), "red".into())]);
    let second = s.segments("still");
    assert_eq!(second, vec![("ansi-fg-red".into(), "still".into())]);
    let third = s.segments("\x1b[39mdef\x1b[92mg");
    assert_eq!(
        third,
        vec![("ansi-fg-default".into(), "def".into()), ("ansi-fg-bright-green".into(), "g".into())]
    );
}

#[test]
fn capture_classes() {
    assert_eq!(tk_class("keyword"), "tk-keyword");
    assert_eq!(tk_class("keyword.control.import"), "tk-keyword-control-import");
    assert_eq!(tk_class("text.title"), "tk-markup-heading");
    assert_eq!(tk_class("text.strike"), "tk-markup-italic");
}

#[test]
fn line_specs() {
    assert_eq!(parse_line_spec("1,3-4"), vec![1, 3, 4]);
    assert_eq!(parse_line_spec(" 2 , x, 5-3, 7 - 8 "), vec![2, 7, 8]);
    assert_eq!(parse_line_spec(""), Vec::<usize>::new());
    assert_eq!(parse_line_spec("+3"), vec![3]);
}

#[test]
fn fence_meta_parses() {
    let spec = FenceSpec::parse_meta("lang=js hl=1,3-4 ln=true label=npm install");
    assert_eq!(spec.lang, "js");
    assert_eq!(spec.hl, vec![1, 3, 4]);
    assert_eq!(spec.ln, Some(LineNumbers::On));
    assert_eq!(spec.label.as_deref(), Some("npm install"));
    assert!(!spec.group);
    let spec = FenceSpec::parse_meta("lang=ts group=1 ln=5 label=");
    assert_eq!(spec.lang, "ts");
    assert!(spec.group);
    assert_eq!(spec.ln, Some(LineNumbers::From(5)));
    assert!(spec.label.is_none());
    let spec = FenceSpec::parse_meta("ln=false lang=a lang=b ln=x");
    assert_eq!(spec.lang, "b");
    assert_eq!(spec.ln, Some(LineNumbers::From(1)));
    assert!(spec.hl.is_empty());
}

#[test]
fn dotted_scope_falls_back_to_parent_scope() {
    let mut theme = SyntaxTheme::default();
    theme.insert("keyword".into(), ThemeStyle { fg: Some("#d73a49".into()), ..Default::default() });
    assert_eq!(theme.resolve("keyword").unwrap().fg.as_deref(), Some("#d73a49"));
    assert!(theme.resolve("type").is_none());
    assert_eq!(theme.resolve("keyword.control.import").unwrap().fg.as_deref(), Some("#d73a49"));
}

#[test]
fn insert_replaces_and_iterates_in_scope_order() {
    let mut theme = SyntaxTheme::default();
    assert!(theme.is_empty());
    theme.insert("type".into(), ThemeStyle { bold: true, ..Default::default() });
    theme.insert("comment".into(), ThemeStyle { italic: true, ..Default::default() });
    theme.insert("type".into(), ThemeStyle { underline: true, ..Default::default() });
    let entries = theme.iter();
    let keys: Vec<&str> = entries.iter().map(|(k, _)| k.as_str()).collect();
    assert_eq!(keys, vec!["comment", "type"]);
    assert!(entries[1].1.underline && !entries[1].1.bold);
    assert!(!theme.is_empty());
}

fn raw(inherits: Option<&str>, palette: &[(&str, &str)], styles: Vec<(&str, RawStyle)>) -> RawTheme {
    RawTheme {
        inherits: inherits.map(|s| s.to_string()),
        palette: palette.iter().map(|(a, b)| (a.to_string(), b.to_string())).collect(),
        styles: styles.into_iter().map(|(k, v)| (k.to_string(), v)).collect(),
    }
}

fn fg(c: &str) -> RawStyle {
    RawStyle { fg: Some(c.into()), bg: None, bold: false, italic: false, underline: false }
}


#[test]
fn leaf_palette_recolors_root_styles() {
    let root = raw(None, &[("bg0", "#111111")], vec![("keyword", fg("bg0")), ("type", fg("missing"))]);
    let leaf = raw(Some("root"), &[("bg0", "#222222")], vec![("string", fg("bg0"))]);
    let t = load_chain(&vec![root, leaf]);
    assert_eq!(t.resolve("keyword").unwrap().fg.as_deref(), Some("#222222"));
    assert_eq!(t.resolve("string").unwrap().fg.as_deref(), Some("#222222"));
    // a palette miss drops the colour, the style stays
    assert!(t.resolve("type").is_some());
    assert!(t.resolve("type").unwrap().fg.is_none());
}

#[test]
fn syntax_css_dual_theme_rules() {
    let light = load_chain(&vec![raw(None, &[], vec![("keyword", fg("#d73a49")), ("comment", RawStyle {
        fg: None,
        bg: None,
        bold: false,
        italic: false,
        underline: false,
    })])]);
    let dark = load_chain(&vec![raw(None, &[], vec![("keyword", fg("#f97583"))])]);
    let css = syntax_css(&light, &dark);
    assert!(css.starts_with("@layer syntax {\n"));
    assert!(css.contains(".tk-keyword {\n  color: #d73a49;\n}\n"), "{css}");
    assert!(css.contains("html.dark .tk-keyword {\n  color: #f97583;\n}\n"), "{css}");
    // dotted names resolve through their parent scope
    assert!(css.contains(".tk-keyword-control-import {\n  color: #d73a49;\n}\n"), "{css}");
    // a style that sets nothing gets no rule
    assert!(!css.contains(".tk-comment {"), "{css}");
    assert!(css.contains(".ansi-bold { font-weight: 700; }"));
    assert!(css.ends_with("}\n"));
}

use rustpress::markdown::highlight::{fence_parts, line_class, line_notations, rendered_line_count, GdCodeRenderer, COPY_BUTTON};

fn strings(v: &[&str]) -> Vec<String> {
    v.iter().map(|s| s.to_string()).collect()
}

#[test]
fn notations_become_line_classes() {
    let lines = strings(&["a [!code hl]\n", "b\n", "c // [!code focus:2]\n", "d\n", "e [!!code ++]\n", "f [!code --] [!code error]"]);
    let (clean, notes) = line_notations(&lines);
    assert_eq!(clean, strings(&["a \n", "b\n", "c // \n", "d\n", "e [!code ++]\n", "f  "]));
    assert_eq!(notes[0], strings(&["hl"]));
    assert!(notes[1].is_empty());
    assert_eq!(notes[2], strings(&["focus"]));
    assert_eq!(notes[3], strings(&["focus"]));
    assert!(notes[4].is_empty());
    assert_eq!(notes[5], strings(&["diff remove", "error"]));
}

#[test]
fn line_classes() {
    assert_eq!(line_class(1, &vec![1, 3], &vec![]), "line hl");
    assert_eq!(line_class(2, &vec![1, 3], &strings(&["focus", "hl"])), "line hl focus");
    assert_eq!(line_class(2, &vec![], &strings(&["diff add"])), "line diff add");
}

#[test]
fn plain_block_markup() {
    let r = GdCodeRenderer::default();
    let spec = FenceSpec::parse_meta("lang=txt");
    let html = r.render_block(&spec, &strings(&["x<y\n", "z"]), &vec![vec![], vec![]], &None);
    let expected = format!(
        "<pre class=\"language-txt\">{COPY_BUTTON}<span class=\"lang\">txt</span><code class=\"language-txt\" data-lang=\"txt\"><span class=\"line\">x&lt;y</span>\n<span class=\"line\">z</span></code></pre>"
    );
    assert_eq!(html, expected);
}

#[test]
fn titled_numbered_block_markup() {
    let mut r = GdCodeRenderer::default();
    r.options.copy_button = false;
    let spec = FenceSpec::parse_meta("lang=js ln=5 label=it's");
    let html = r.render_block(&spec, &strings(&["a\n"]), &vec![vec![]], &None);
    assert_eq!(
        html,
        "<div class=\"vp-code-block-title\"><div class=\"vp-code-block-title-bar\"><span class=\"vp-code-block-title-text\" data-title=\"it&#39;s\">it's</span></div><pre class=\"language-js line-numbers\" style=\"counter-reset: gdln 4;\"><span class=\"lang\"></span><code class=\"language-js\" data-lang=\"js\" data-name=\"it&#39;s\"><span class=\"line\">a</span></code></pre></div>"
    );
}

#[test]
fn ansi_block_markup() {
    let mut r = GdCodeRenderer::default();
    r.options.copy_button = false;
    let spec = FenceSpec::parse_meta("lang=ANSI");
    let html = r.render_block(&spec, &strings(&["\x1b[31mred\n", "still"]), &vec![vec![], vec![]], &None);
    assert!(html.ends_with(
        "<span class=\"line\"><span class=\"ansi-fg-red\">red</span></span>\n<span class=\"line\"><span class=\"ansi-fg-red\">still</span></span></code></pre>"
    ), "{html}");
}

#[test]
fn highlighted_block_markup() {
    let mut r = GdCodeRenderer::default();
    r.options.copy_button = false;
    let spec = FenceSpec::parse_meta("lang=js hl=2");
    let lines = strings(&["let x\n", "y\n"]);
    assert_eq!(rendered_line_count(&lines), 2);
    let segs = vec![(0, 3, Some("keyword".to_string())), (4, 5, None), (6, 7, Some("variable".to_string()))];
    let html = r.render_block(&spec, &lines, &vec![vec![], strings(&["focus"])], &Some(segs));
    assert!(html.starts_with("<pre class=\"language-js has-focus\">"), "{html}");
    assert!(html.ends_with(
        "<span class=\"line\"><span class=\"tk-keyword\">let</span> x</span>\n<span class=\"line hl focus\"><span class=\"tk-variable\">y</span></span></code></pre>"
    ), "{html}");
}

fn tstr(v: &str) -> TomlValue {
    TomlValue::Str(v.to_string())
}

/// `"keyword" = "#d73a49"`, `"string" = "#032f62"`,
/// `"comment" = { fg = "#6a737d", modifiers = ["italic"] }`, keys in
/// table order.
fn base_theme() -> TomlValue {
    TomlValue::Table(vec![
        (
            "comment".to_string(),
            TomlValue::Table(vec![
                ("fg".to_string(), tstr("#6a737d")),
                ("modifiers".to_string(), TomlValue::Array(vec![tstr("italic")])),
            ]),
        ),
        ("keyword".to_string(), tstr("#d73a49")),
        ("string".to_string(), tstr("#032f62")),
    ])
}

#[test]
fn parses_shorthand_and_full_forms() {
    let raw = RawTheme::parse(&base_theme()).unwrap();
    let t = load_chain(&vec![raw]);
    assert_eq!(t.resolve("keyword").unwrap().fg.as_deref(), Some("#d73a49"));
    assert!(t.resolve("comment").unwrap().italic);
}

#[test]
fn theme_files_read_inherits_palette_and_modifiers() {
    let value = TomlValue::Table(vec![
        ("inherits".to_string(), tstr("base")),
        (
            "palette".to_string(),
            TomlValue::Table(vec![("red".to_string(), tstr("#ff0000")), ("n".to_string(), TomlValue::Other)]),
        ),
        (
            "type".to_string(),
            TomlValue::Table(vec![
                ("bg".to_string(), tstr("red")),
                (
                    "modifiers".to_string(),
                    TomlValue::Array(vec![tstr("bold"), TomlValue::Other, tstr("underlined")]),
                ),
            ]),
        ),
        ("ui.cursor".to_string(), TomlValue::Other),
    ]);
    let raw = RawTheme::parse(&value).unwrap();
    assert_eq!(raw.inherits.as_deref(), Some("base"));
    assert_eq!(raw.palette, vec![("red".to_string(), "#ff0000".to_string())]);
    assert_eq!(raw.styles.len(), 1);
    let (k, st) = &raw.styles[0];
    assert_eq!(k, "type");
    assert_eq!((st.fg.as_deref(), st.bg.as_deref(), st.bold, st.italic, st.underline), (None, Some("red"), true, false, true));
    match RawTheme::parse(&tstr("x")) {
        Err(ThemeError::Parse(m)) => assert_eq!(m, "theme is not a TOML table"),
        other => panic!("{other:?}"),
    }
}

#[test]
fn highlighter_events_become_char_segments() {
    // 'é' takes two bytes
    let text: Vec<char> = "é = 1\n".chars().collect();
    let steps = vec![
        HighlightStep::Start(0),
        HighlightStep::Source(0, 2),
        HighlightStep::End,
        HighlightStep::Source(2, 7),
    ];
    let segs = segments_from_steps(&steps, &text).unwrap();
    assert_eq!(segs, vec![(0, 1, Some("attribute".to_string())), (1, 6, None)]);
    // a span past the end of the text
    assert!(segments_from_steps(&vec![HighlightStep::Source(0, 99)], &text).is_none());
    // an offset inside a character maps to 0
    assert_eq!(segments_from_steps(&vec![HighlightStep::Source(1, 2)], &text).unwrap(), vec![(0, 1, None)]);
    // an unknown capture index opens an unnamed capture
    let segs = segments_from_steps(&vec![HighlightStep::Start(9999), HighlightStep::Source(0, 2)], &text).unwrap();
    assert_eq!(segs, vec![(0, 1, Some(String::new()))]);
    assert!(segments_ordered_v(&vec![(0, 1, None), (1, 6, None)], 6));
    assert!(!segments_ordered_v(&vec![(0, 3, None), (1, 6, None)], 6));
    assert!(!segments_ordered_v(&vec![(0, 7, None)], 6));
}

#[test]
fn fence_parts_strip_notations_and_join_the_text() {
    let parts = fence_parts("lang=js", "let a = 1; // [!code highlight]\nlet b = 2;\n").unwrap();
    assert_eq!(parts.spec.lang, "js");
    assert_eq!(parts.lines, strings(&["let a = 1; // \n", "let b = 2;\n"]));
    assert_eq!(parts.notes.len(), 2);
    assert_eq!(parts.notes[0], strings(&["hl"]));
    assert!(parts.notes[1].is_empty());
    assert_eq!(parts.text, "let a = 1; // \nlet b = 2;\n");
}

fn raw_inheriting(parent: Option<&str>) -> RawTheme {
    RawTheme { inherits: parent.map(Into::into), palette: vec![], styles: vec![] }
}

fn done(step: ChainStep) -> Vec<usize> {
    match step {
        ChainStep::Done(v) => v,
        ChainStep::Read(k) => panic!("expected the chain, asked for {k}"),
    }
}

#[test]
fn theme_chain_reads_parents_and_stops_at_cycles() {
    let mut files = vec![ThemeFile { key: "a.toml".into(), theme: Some(raw_inheriting(Some("b.toml"))) }];
    match theme_chain("a.toml", &files) {
        ChainStep::Read(k) => assert_eq!(k, "b.toml"),
        ChainStep::Done(_) => panic!("the parent is still unread"),
    }
    files.push(ThemeFile { key: "b.toml".into(), theme: Some(raw_inheriting(Some("a.toml"))) });
    assert_eq!(done(theme_chain("a.toml", &files)), vec![1, 0]);
    let plain = vec![ThemeFile { key: "c.toml".into(), theme: Some(raw_inheriting(Some("github-dark"))) }];
    assert_eq!(done(theme_chain("c.toml", &plain)), vec![0]);
    let broken_parent = vec![
        ThemeFile { key: "d.toml".into(), theme: Some(raw_inheriting(Some("e.toml"))) },
        ThemeFile { key: "e.toml".into(), theme: None },
    ];
    assert_eq!(done(theme_chain("d.toml", &broken_parent)), vec![0]);
    let unparsable = vec![ThemeFile { key: "f.toml".into(), theme: None }];
    assert!(done(theme_chain("f.toml", &unparsable)).is_empty());
}

#[test]
fn fence_languages_select_grammars() {
    assert_eq!(grammar_for(" RS "), Some(Grammar::Rust));
    assert_eq!(grammar_for("yml"), Some(Grammar::Yaml));
    assert_eq!(grammar_for("markdown-inline"), Some(Grammar::MarkdownInline));
    assert_eq!(grammar_for("text"), None);
    assert_eq!(grammar_for("ansi"), None);
}

#[test]
fn fences_are_highlighted_by_their_grammar() {
    let grammars = Grammars::standard();
    assert!(grammars.config_for("rust").is_some());
    assert!(grammars.config_for("cobol").is_none());
    let r = GdCodeRenderer::default();
    let html = r.write_fence(&grammars, "lang=rust", "fn main() {}\n").unwrap();
    assert!(html.contains("<span class=\"tk-"));
    assert!(html.contains("main"));
    let plain = r.write_fence(&grammars, "lang=cobol", "a < b\n").unwrap();
    assert!(plain.contains("a &lt; b"));
    assert!(!plain.contains("tk-"));
}

#[test]
fn sgr_params_take_one_leading_plus() {
    let mut s = SgrState::default();
    s.apply_sgr(&"+1;+".chars().collect());
    assert_eq!(s.segments("x"), vec![("ansi-bold".into(), "x".into())]);
    let mut t = SgrState::default();
    t.apply_sgr(&"++1".chars().collect());
    assert_eq!(t.segments("y"), vec![("".into(), "y".into())]);
}

#[test]
fn lines_without_brackets_keep_text_and_carry_only() {
    let lines: Vec<String> = vec!["a // [!code hl:2]\n".into(), "plain\n".into(), "more\n".into()];
    let (clean, notes) = line_notations(&lines);
    assert_eq!(clean[1], "plain\n");
    assert_eq!(clean[2], "more\n");
    assert_eq!(notes[1], vec!["hl".to_string()]);
    assert!(notes[2].is_empty());
}

fn code_body(html: &str) -> String {
    let body = html.split("<code").nth(1).unwrap();
    body[..body.find("</code>").unwrap()].to_string()
}

#[test]
fn scope_same_line_open_close() {
    // opens and closes within one line: no carry
    let grammars = Grammars::standard();
    let out = GdCodeRenderer::default().write_fence(&grammars, "lang=js", "let x = 1;\n").unwrap();
    let body = code_body(&out);
    assert_eq!(body.matches("<span").count(), body.matches("</span>").count());
}

#[test]
fn last_line_without_newline() {
    let grammars = Grammars::standard();
    let out = GdCodeRenderer::default().write_fence(&grammars, "lang=js", "let x = 1;").unwrap();
    assert!(out.contains("<span class=\"line\">"));
}

#[test]
fn empty_lines_inside_carried_scope() {
    let grammars = Grammars::standard();
    let code = "/* c\n\n\nd */\nlet x = 1;\n";
    let out = GdCodeRenderer::default().write_fence(&grammars, "lang=js", code).unwrap();
    let body = code_body(&out);
    assert_eq!(body.matches("<span").count(), body.matches("</span>").count());
}

#[test]
fn theme_sources_parse_as_toml_tables() {
    let raw = RawTheme::from_source("inherits = \"base\"\n\"keyword\" = \"#ff0000\"\n[palette]\nred = \"#f00\"\n").unwrap();
    assert_eq!(raw.inherits.as_deref(), Some("base"));
    assert_eq!(raw.palette, vec![("red".to_string(), "#f00".to_string())]);
    assert_eq!(raw.styles.len(), 1);
    assert!(matches!(RawTheme::from_source("= nope"), Err(ThemeError::Parse(_))));
}

#[test]
fn markdown_fences_highlight_with_injections() {
    let grammars = Grammars::standard();
    assert!(grammars.config_for("md").is_some());
    let out = GdCodeRenderer::default().write_fence(&grammars, "lang=md", "# Title\n\n```rust\nfn x() {}\n```\n").unwrap();
    assert!(out.contains("tk-"), "{out}");
    assert!(out.contains("Title"));
}
