//! The tree-sitter grammars code fences are highlighted with: which fence
//! language selects which grammar, the compiled grammars, the highlighter
//! call over a fence's text, and the whole fence rendered from it.

use tree_sitter_highlight::{HighlightConfiguration, HighlightEvent, Highlighter};
use vstd::prelude::*;

use crate::markdown::highlight::{
    capture_name, concat_lines, fence_lines, fence_notes, fence_parts, fence_segments, meta_ok, spec_render_block,
    FenceSpec, GdCodeRenderer, HighlightStep, CAPTURE_COUNT,
};
use crate::text::{char_lowercase, eq_str, from_chars, push_all, push_str, spec_char_lowercase, to_chars, trim, trim_v};

verus! {

broadcast use vstd::string::group_string_axioms;

#[verifier::external_type_specification]
#[verifier::external_body]
pub struct ExHighlightConfiguration(HighlightConfiguration);

/// The grammars a fence can name.
#[derive(Debug, Clone, Copy, PartialEq, Eq, Structural)]
pub enum Grammar {
    Bash,
    JavaScript,
    TypeScript,
    Tsx,
    Json,
    Yaml,
    Toml,
    Html,
    Css,
    Python,
    Rust,
    Markdown,
    MarkdownInline,
}

/// `char::to_lowercase` over a text.
pub open spec fn lower(s: Seq<char>) -> Seq<char>
    decreases s.len(),
{
    if s.len() == 0 {
        Seq::empty()
    } else {
        lower(s.drop_last()) + spec_char_lowercase(s.last())
    }
}

/// The grammar a (trimmed, lower-cased) fence language names.
pub open spec fn grammar_named(t: Seq<char>) -> Option<Grammar> {
    if t == "bash"@ || t == "sh"@ || t == "shell"@ || t == "zsh"@ {
        Some(Grammar::Bash)
    } else if t == "javascript"@ || t == "js"@ || t == "jsx"@ || t == "mjs"@ || t == "cjs"@ {
        Some(Grammar::JavaScript)
    } else if t == "typescript"@ || t == "ts"@ {
        Some(Grammar::TypeScript)
    } else if t == "tsx"@ {
        Some(Grammar::Tsx)
    } else if t == "json"@ || t == "jsonc"@ {
        Some(Grammar::Json)
    } else if t == "yaml"@ || t == "yml"@ {
        Some(Grammar::Yaml)
    } else if t == "toml"@ {
        Some(Grammar::Toml)
    } else if t == "html"@ {
        Some(Grammar::Html)
    } else if t == "css"@ {
        Some(Grammar::Css)
    } else if t == "python"@ || t == "py"@ {
        Some(Grammar::Python)
    } else if t == "rust"@ || t == "rs"@ {
        Some(Grammar::Rust)
    } else if t == "markdown"@ || t == "md"@ {
        Some(Grammar::Markdown)
    } else if t == "markdown_inline"@ || t == "markdown-inline"@ {
        Some(Grammar::MarkdownInline)
    } else {
        None
    }
}

/// The grammar a fence language selects: trimmed and lower-cased.
pub open spec fn spec_grammar_for(token: Seq<char>) -> Option<Grammar> {
    grammar_named(lower(trim(token)))
}

fn lower_v(v: &Vec<char>) -> (r: Vec<char>)
    ensures
        r@ == lower(v@),
{
    let mut out: Vec<char> = Vec::new();
    let mut i: usize = 0;
    assert(v@.take(0) =~= Seq::<char>::empty());
    while i < v.len()
        invariant
            i <= v.len(),
            out@ == lower(v@.take(i as int)),
        decreases v.len() - i,
    {
        assert(v@.take(i as int + 1).drop_last() =~= v@.take(i as int));
        let low = char_lowercase(v[i]);
        push_all(&mut out, &low);
        i += 1;
    }
    assert(v@.take(i as int) =~= v@);
    out
}

pub fn grammar_for(token: &str) -> (r: Option<Grammar>)
    ensures
        r == spec_grammar_for(token@),
{
    let t = lower_v(&trim_v(&to_chars(token)));
    if eq_str(&t, "bash") || eq_str(&t, "sh") || eq_str(&t, "shell") || eq_str(&t, "zsh") {
        Some(Grammar::Bash)
    } else if eq_str(&t, "javascript") || eq_str(&t, "js") || eq_str(&t, "jsx") || eq_str(&t, "mjs") || eq_str(
        &t,
        "cjs",
    ) {
        Some(Grammar::JavaScript)
    } else if eq_str(&t, "typescript") || eq_str(&t, "ts") {
        Some(Grammar::TypeScript)
    } else if eq_str(&t, "tsx") {
        Some(Grammar::Tsx)
    } else if eq_str(&t, "json") || eq_str(&t, "jsonc") {
        Some(Grammar::Json)
    } else if eq_str(&t, "yaml") || eq_str(&t, "yml") {
        Some(Grammar::Yaml)
    } else if eq_str(&t, "toml") {
        Some(Grammar::Toml)
    } else if eq_str(&t, "html") {
        Some(Grammar::Html)
    } else if eq_str(&t, "css") {
        Some(Grammar::Css)
    } else if eq_str(&t, "python") || eq_str(&t, "py") {
        Some(Grammar::Python)
    } else if eq_str(&t, "rust") || eq_str(&t, "rs") {
        Some(Grammar::Rust)
    } else if eq_str(&t, "markdown") || eq_str(&t, "md") {
        Some(Grammar::Markdown)
    } else if eq_str(&t, "markdown_inline") || eq_str(&t, "markdown-inline") {
        Some(Grammar::MarkdownInline)
    } else {
        None
    }
}

// ── the compiled grammars ──────────────────────────────────────────────

/// The markdown block grammar's injections lack
/// `injection.include-children` on its container patterns, so injected
/// ranges inside them come back empty; these patterns re-add it.
pub const MARKDOWN_INJECTIONS: &'static str = "\n((inline) @injection.content\n  (#set! injection.language \"markdown_inline\")\n  (#set! injection.include-children))\n((fenced_code_block\n   (info_string (language) @injection.language)\n   (code_fence_content) @injection.content)\n  (#set! injection.include-children))\n";

/// `HighlightConfiguration::new` with tree-sitter-bash's grammar and
/// queries, then `configure` with the capture names; `None` when the
/// queries do not compile. Nothing is stated of the configuration.
#[verifier::external_body]
fn bash_grammar(names: &Vec<String>) -> Option<HighlightConfiguration> {
    let mut c = HighlightConfiguration::new(tree_sitter_bash::LANGUAGE.into(), "bash", tree_sitter_bash::HIGHLIGHT_QUERY, "", "").ok()?;
    c.configure(names.as_slice());
    Some(c)
}

/// `HighlightConfiguration::new` with tree-sitter-javascript (its highlight and JSX queries joined)'s grammar and
/// queries, then `configure` with the capture names; `None` when the
/// queries do not compile. Nothing is stated of the configuration.
#[verifier::external_body]
fn javascript_grammar(names: &Vec<String>) -> Option<HighlightConfiguration> {
    let mut c = HighlightConfiguration::new(tree_sitter_javascript::LANGUAGE.into(), "javascript", &[tree_sitter_javascript::HIGHLIGHT_QUERY, tree_sitter_javascript::JSX_HIGHLIGHT_QUERY].join("\n"), tree_sitter_javascript::INJECTIONS_QUERY, "").ok()?;
    c.configure(names.as_slice());
    Some(c)
}

/// `HighlightConfiguration::new` with tree-sitter-typescript's grammar and
/// queries, then `configure` with the capture names; `None` when the
/// queries do not compile. Nothing is stated of the configuration.
#[verifier::external_body]
fn typescript_grammar(names: &Vec<String>) -> Option<HighlightConfiguration> {
    let mut c = HighlightConfiguration::new(tree_sitter_typescript::LANGUAGE_TYPESCRIPT.into(), "typescript", tree_sitter_typescript::HIGHLIGHTS_QUERY, "", "").ok()?;
    c.configure(names.as_slice());
    Some(c)
}

/// `HighlightConfiguration::new` with tree-sitter-typescript (TSX)'s grammar and
/// queries, then `configure` with the capture names; `None` when the
/// queries do not compile. Nothing is stated of the configuration.
#[verifier::external_body]
fn tsx_grammar(names: &Vec<String>) -> Option<HighlightConfiguration> {
    let mut c = HighlightConfiguration::new(tree_sitter_typescript::LANGUAGE_TSX.into(), "tsx", tree_sitter_typescript::HIGHLIGHTS_QUERY, "", "").ok()?;
    c.configure(names.as_slice());
    Some(c)
}

/// `HighlightConfiguration::new` with tree-sitter-json's grammar and
/// queries, then `configure` with the capture names; `None` when the
/// queries do not compile. Nothing is stated of the configuration.
#[verifier::external_body]
fn json_grammar(names: &Vec<String>) -> Option<HighlightConfiguration> {
    let mut c = HighlightConfiguration::new(tree_sitter_json::LANGUAGE.into(), "json", tree_sitter_json::HIGHLIGHTS_QUERY, "", "").ok()?;
    c.configure(names.as_slice());
    Some(c)
}

/// `HighlightConfiguration::new` with tree-sitter-yaml's grammar and
/// queries, then `configure` with the capture names; `None` when the
/// queries do not compile. Nothing is stated of the configuration.
#[verifier::external_body]
fn yaml_grammar(names: &Vec<String>) -> Option<HighlightConfiguration> {
    let mut c = HighlightConfiguration::new(tree_sitter_yaml::LANGUAGE.into(), "yaml", tree_sitter_yaml::HIGHLIGHTS_QUERY, "", "").ok()?;
    c.configure(names.as_slice());
    Some(c)
}

/// `HighlightConfiguration::new` with tree-sitter-toml-ng's grammar and
/// queries, then `configure` with the capture names; `None` when the
/// queries do not compile. Nothing is stated of the configuration.
#[verifier::external_body]
fn toml_grammar(names: &Vec<String>) -> Option<HighlightConfiguration> {
    let mut c = HighlightConfiguration::new(tree_sitter_toml_ng::LANGUAGE.into(), "toml", tree_sitter_toml_ng::HIGHLIGHTS_QUERY, "", "").ok()?;
    c.configure(names.as_slice());
    Some(c)
}

/// `HighlightConfiguration::new` with tree-sitter-html's grammar and
/// queries, then `configure` with the capture names; `None` when the
/// queries do not compile. Nothing is stated of the configuration.
#[verifier::external_body]
fn html_grammar(names: &Vec<String>) -> Option<HighlightConfiguration> {
    let mut c = HighlightConfiguration::new(tree_sitter_html::LANGUAGE.into(), "html", tree_sitter_html::HIGHLIGHTS_QUERY, tree_sitter_html::INJECTIONS_QUERY, "").ok()?;
    c.configure(names.as_slice());
    Some(c)
}

/// `HighlightConfiguration::new` with tree-sitter-css's grammar and
/// queries, then `configure` with the capture names; `None` when the
/// queries do not compile. Nothing is stated of the configuration.
#[verifier::external_body]
fn css_grammar(names: &Vec<String>) -> Option<HighlightConfiguration> {
    let mut c = HighlightConfiguration::new(tree_sitter_css::LANGUAGE.into(), "css", tree_sitter_css::HIGHLIGHTS_QUERY, "", "").ok()?;
    c.configure(names.as_slice());
    Some(c)
}

/// `HighlightConfiguration::new` with tree-sitter-python's grammar and
/// queries, then `configure` with the capture names; `None` when the
/// queries do not compile. Nothing is stated of the configuration.
#[verifier::external_body]
fn python_grammar(names: &Vec<String>) -> Option<HighlightConfiguration> {
    let mut c = HighlightConfiguration::new(tree_sitter_python::LANGUAGE.into(), "python", tree_sitter_python::HIGHLIGHTS_QUERY, "", "").ok()?;
    c.configure(names.as_slice());
    Some(c)
}

/// `HighlightConfiguration::new` with tree-sitter-rust's grammar and
/// queries, then `configure` with the capture names; `None` when the
/// queries do not compile. Nothing is stated of the configuration.
#[verifier::external_body]
fn rust_grammar(names: &Vec<String>) -> Option<HighlightConfiguration> {
    let mut c = HighlightConfiguration::new(tree_sitter_rust::LANGUAGE.into(), "rust", tree_sitter_rust::HIGHLIGHTS_QUERY, tree_sitter_rust::INJECTIONS_QUERY, "").ok()?;
    c.configure(names.as_slice());
    Some(c)
}

/// tree-sitter-md's `INJECTION_QUERY_BLOCK`: the block grammar's own
/// injection query. Nothing is stated of its text.
#[verifier::external_body]
fn md_block_injections() -> &'static str {
    tree_sitter_md::INJECTION_QUERY_BLOCK
}

/// `HighlightConfiguration::new` with tree-sitter-md (block grammar)'s
/// grammar and highlight query and the injection query given, then
/// `configure` with the capture names; `None` when the queries do not
/// compile. Nothing is stated of the configuration.
#[verifier::external_body]
fn markdown_grammar(names: &Vec<String>, injections: &str) -> Option<HighlightConfiguration> {
    let mut c = HighlightConfiguration::new(tree_sitter_md::LANGUAGE.into(), "markdown", tree_sitter_md::HIGHLIGHT_QUERY_BLOCK, injections, "").ok()?;
    c.configure(names.as_slice());
    Some(c)
}

/// `HighlightConfiguration::new` with tree-sitter-md (inline grammar)'s grammar and
/// queries, then `configure` with the capture names; `None` when the
/// queries do not compile. Nothing is stated of the configuration.
#[verifier::external_body]
fn markdown_inline_grammar(names: &Vec<String>) -> Option<HighlightConfiguration> {
    let mut c = HighlightConfiguration::new(tree_sitter_md::INLINE_LANGUAGE.into(), "markdown-inline", tree_sitter_md::HIGHLIGHT_QUERY_INLINE, tree_sitter_md::INJECTION_QUERY_INLINE, "").ok()?;
    c.configure(names.as_slice());
    Some(c)
}

/// The capture names the grammars are configured with.
fn capture_names() -> (r: Vec<String>)
    ensures
        r.len() == CAPTURE_COUNT,
{
    let mut names: Vec<String> = Vec::new();
    let mut i: usize = 0;
    while i < CAPTURE_COUNT
        invariant
            i <= CAPTURE_COUNT,
            names.len() == i,
        decreases CAPTURE_COUNT - i,
    {
        names.push(String::from_str(capture_name(i)));
        i += 1;
    }
    names
}

/// The grammars that compiled, each with its highlight configuration.
pub struct Grammars {
    entries: Vec<(Grammar, HighlightConfiguration)>,
}

fn push_grammar(entries: &mut Vec<(Grammar, HighlightConfiguration)>, g: Grammar, c: Option<HighlightConfiguration>)
    ensures
        final(entries)@.map_values(|e: (Grammar, HighlightConfiguration)| e.0) == old(entries)@.map_values(
            |e: (Grammar, HighlightConfiguration)| e.0,
        ) + match c {
            Some(_) => seq![g],
            None => Seq::<Grammar>::empty(),
        },
{
    let ghost before = entries@;
    match c {
        Some(conf) => {
            entries.push((g, conf));
            assert(entries@.map_values(|e: (Grammar, HighlightConfiguration)| e.0) =~= before.map_values(
                |e: (Grammar, HighlightConfiguration)| e.0,
            ) + seq![g]);
        },
        None => {
            assert(entries@.map_values(|e: (Grammar, HighlightConfiguration)| e.0) =~= before.map_values(
                |e: (Grammar, HighlightConfiguration)| e.0,
            ) + Seq::<Grammar>::empty());
        },
    }
}

/// The configuration of the first entry for `g`.
pub open spec fn config_in(es: Seq<(Grammar, HighlightConfiguration)>, g: Grammar) -> Option<HighlightConfiguration>
    decreases es.len(),
{
    if es.len() == 0 {
        None
    } else if es[0].0 == g {
        Some(es[0].1)
    } else {
        config_in(es.drop_first(), g)
    }
}

impl Grammars {
    /// The configuration the grammar `token` selects, when that grammar
    /// compiled.
    pub closed spec fn config_of(self, token: Seq<char>) -> Option<HighlightConfiguration> {
        match spec_grammar_for(token) {
            Some(g) => config_in(self.entries@, g),
            None => None,
        }
    }

    /// The grammars that compiled, in registration order.
    pub closed spec fn compiled(self) -> Seq<Grammar> {
        self.entries@.map_values(|e: (Grammar, HighlightConfiguration)| e.0)
    }

    /// Every grammar, compiled once; one whose queries fail to compile
    /// is left out (its fences render as plain text).
    pub fn standard() -> (r: Grammars) {
        let names = capture_names();
        let mut entries: Vec<(Grammar, HighlightConfiguration)> = Vec::new();
        push_grammar(&mut entries, Grammar::Bash, bash_grammar(&names));
        push_grammar(&mut entries, Grammar::JavaScript, javascript_grammar(&names));
        push_grammar(&mut entries, Grammar::TypeScript, typescript_grammar(&names));
        push_grammar(&mut entries, Grammar::Tsx, tsx_grammar(&names));
        push_grammar(&mut entries, Grammar::Json, json_grammar(&names));
        push_grammar(&mut entries, Grammar::Yaml, yaml_grammar(&names));
        push_grammar(&mut entries, Grammar::Toml, toml_grammar(&names));
        push_grammar(&mut entries, Grammar::Html, html_grammar(&names));
        push_grammar(&mut entries, Grammar::Css, css_grammar(&names));
        push_grammar(&mut entries, Grammar::Python, python_grammar(&names));
        push_grammar(&mut entries, Grammar::Rust, rust_grammar(&names));
        let mut injections = to_chars(md_block_injections());
        push_str(&mut injections, MARKDOWN_INJECTIONS);
        let injections = from_chars(&injections);
        push_grammar(&mut entries, Grammar::Markdown, markdown_grammar(&names, injections.as_str()));
        push_grammar(&mut entries, Grammar::MarkdownInline, markdown_inline_grammar(&names));
        Grammars { entries }
    }

    /// The configuration of the grammar `token` selects, when that
    /// grammar compiled.
    pub fn config_for(&self, token: &str) -> (r: Option<&HighlightConfiguration>)
        ensures
            r is Some <==> grammar_known(*self, token@),
            match r {
                Some(c) => self.config_of(token@) == Some(*c),
                None => self.config_of(token@) is None,
            },
    {
        let g = match grammar_for(token) {
            Some(g) => g,
            None => {
                return None;
            },
        };
        let mut i: usize = 0;
        assert(self.entries@.skip(0) =~= self.entries@);
        while i < self.entries.len()
            invariant
                i <= self.entries.len(),
                spec_grammar_for(token@) == Some(g),
                forall|k: int| 0 <= k < i ==> #[trigger] self.compiled()[k] != g,
                config_in(self.entries@, g) == config_in(self.entries@.skip(i as int), g),
            decreases self.entries.len() - i,
        {
            assert(self.compiled()[i as int] == self.entries@[i as int].0);
            assert(self.entries@.skip(i as int)[0] == self.entries@[i as int]);
            assert(self.entries@.skip(i as int).drop_first() =~= self.entries@.skip(i as int + 1));
            if self.entries[i].0 == g {
                return Some(&self.entries[i].1);
            }
            i += 1;
        }
        assert(!self.compiled().contains(g));
        assert(self.entries@.skip(i as int) =~= Seq::<(Grammar, HighlightConfiguration)>::empty());
        None
    }
}

/// `token` selects a grammar that compiled.
pub open spec fn grammar_known(grammars: Grammars, token: Seq<char>) -> bool {
    match spec_grammar_for(token) {
        Some(g) => grammars.compiled().contains(g),
        None => false,
    }
}

// ── highlighting ───────────────────────────────────────────────────────

/// What tree-sitter-highlight's event stream is over `text` with the
/// grammar `lang` selects (injected languages resolved the same way):
/// each event as a step; `None` where the highlighter errs.
pub uninterp spec fn spec_highlight_steps(lang: Seq<char>, text: Seq<char>) -> Option<Seq<HighlightStep>>;

pub open spec fn steps_view(r: Option<Vec<HighlightStep>>) -> Option<Seq<HighlightStep>> {
    match r {
        Some(v) => Some(v@),
        None => None,
    }
}

/// `Highlighter::highlight` over `text` with `config`, the configuration
/// of the grammar `lang` selects, injections looked up the same way,
/// each event taken one for one as a step; the result is named by
/// `spec_highlight_steps`. The grammars are always the standard set
/// (`Grammars` is only built by `standard`), so the result depends on
/// `lang` and `text` alone.
#[verifier::external_body]
fn highlight_events(grammars: &Grammars, lang: &str, config: &HighlightConfiguration, text: &str) -> (r: Option<
    Vec<HighlightStep>,
>)
    requires
        grammars.config_of(lang@) == Some(*config),
    ensures
        steps_view(r) == spec_highlight_steps(lang@, text@),
{
    let mut highlighter = Highlighter::new();
    let events = highlighter.highlight(config, text.as_bytes(), None, None, |name| grammars.config_for(name)).ok()?;
    let mut steps = Vec::new();
    for event in events {
        steps.push(match event.ok()? {
            HighlightEvent::HighlightStart(h) => HighlightStep::Start(h.0),
            HighlightEvent::HighlightEnd => HighlightStep::End,
            HighlightEvent::Source { start, end } => HighlightStep::Source(start, end),
        });
    }
    Some(steps)
}

/// The steps a fence's text is rendered with: the highlighter's for a
/// language with a grammar, none otherwise.
pub open spec fn fence_steps(grammars: Grammars, lang: Seq<char>, text: Seq<char>) -> Option<Seq<HighlightStep>> {
    if grammar_known(grammars, lang) {
        spec_highlight_steps(lang, text)
    } else {
        None
    }
}

impl GdCodeRenderer {
    /// A code fence from its meta and code: notations stripped into line
    /// classes, the text highlighted by the grammar its language selects
    /// (plain without one), the block rendered. `None` where the
    /// highlighter errs, or the text is too long to index by bytes.
    pub fn write_fence(&self, grammars: &Grammars, meta: &str, code: &str) -> (r: Option<String>)
        ensures
            ({
                let lines = fence_lines(code@);
                let notes = fence_notes(code@);
                let text = concat_lines(lines);
                match r {
                    Some(h) => text.len() < usize::MAX / 4 && exists|sp: FenceSpec|
                        #[trigger] meta_ok(sp, meta@) && (grammar_known(*grammars, sp.lang@) ==> spec_highlight_steps(
                            sp.lang@,
                            text,
                        ) is Some) && h@ == spec_render_block(
                            self.options,
                            sp,
                            lines,
                            notes,
                            fence_segments(lines, notes, fence_steps(*grammars, sp.lang@, text)),
                        ),
                    None => text.len() >= usize::MAX / 4 || exists|sp: FenceSpec|
                        #[trigger] meta_ok(sp, meta@) && grammar_known(*grammars, sp.lang@) && spec_highlight_steps(
                            sp.lang@,
                            text,
                        ) is None,
                }
            }),
    {
        let parts = match fence_parts(meta, code) {
            Some(p) => p,
            None => {
                return None;
            },
        };
        let steps = match grammars.config_for(parts.spec.lang.as_str()) {
            Some(config) => match highlight_events(grammars, parts.spec.lang.as_str(), config, parts.text.as_str()) {
                Some(st) => Some(st),
                None => {
                    assert(meta_ok(parts.spec, meta@));
                    return None;
                },
            },
            None => None,
        };
        let html = self.render_fence(&parts.spec, &parts.lines, &parts.notes, &steps);
        assert(meta_ok(parts.spec, meta@));
        Some(html)
    }
}

} // verus!
