//! Built-in UI palettes for the `[theme]` section of the site config.
//!
//! Each palette re-points the brand aliases (`--vp-c-brand-*`) at one of
//! the palette ramps of the theme stylesheet (or, for `mono`, at literal
//! neutrals) in both `:root` and `.dark`.

use vstd::prelude::*;

use crate::text::{eq_str, from_chars, push_str, to_chars};

verus! {

broadcast use vstd::string::group_string_axioms;

/// The palette used when none is named.
pub const DEFAULT_NAME: &'static str = "vitepress";

/// The override CSS of the `green` palette.
pub const GREEN_CSS: &'static str = "\n:root, .dark {\n  --vp-c-brand-1: var(--vp-c-green-1);\n  --vp-c-brand-2: var(--vp-c-green-2);\n  --vp-c-brand-3: var(--vp-c-green-3);\n  --vp-c-brand-soft: var(--vp-c-green-soft);\n}\n";

/// The override CSS of the `purple` palette.
pub const PURPLE_CSS: &'static str = "\n:root, .dark {\n  --vp-c-brand-1: var(--vp-c-purple-1);\n  --vp-c-brand-2: var(--vp-c-purple-2);\n  --vp-c-brand-3: var(--vp-c-purple-3);\n  --vp-c-brand-soft: var(--vp-c-purple-soft);\n}\n";

/// The override CSS of the `orange` palette.
pub const ORANGE_CSS: &'static str = "\n:root, .dark {\n  --vp-c-brand-1: var(--vp-c-orange-1);\n  --vp-c-brand-2: var(--vp-c-orange-2);\n  --vp-c-brand-3: var(--vp-c-orange-3);\n  --vp-c-brand-soft: var(--vp-c-orange-soft);\n}\n";

/// The override CSS of the `mono` palette.
pub const MONO_CSS: &'static str = "\n:root {\n  --vp-c-brand-1: #242424;\n  --vp-c-brand-2: #4a4a4a;\n  --vp-c-brand-3: #6f6f6f;\n  --vp-c-brand-soft: rgba(128, 128, 128, 0.14);\n}\n\n.dark {\n  --vp-c-brand-1: #e8e8e8;\n  --vp-c-brand-2: #c7c7c7;\n  --vp-c-brand-3: #9a9a9a;\n  --vp-c-brand-soft: rgba(160, 160, 160, 0.16);\n}\n";

/// A built-in palette: its name and override CSS.
#[derive(Debug, Clone, Copy)]
pub struct Palette {
    pub name: &'static str,
    pub css: &'static str,
}

/// The built-in palettes as (name, CSS), in listing order.
pub open spec fn spec_palettes() -> Seq<(Seq<char>, Seq<char>)> {
    seq![
        ("green"@, GREEN_CSS@),
        ("purple"@, PURPLE_CSS@),
        ("orange"@, ORANGE_CSS@),
        ("mono"@, MONO_CSS@),
    ]
}

/// The built-in palettes, in listing order.
pub fn palettes() -> (r: Vec<Palette>)
    ensures
        r.len() == spec_palettes().len(),
        forall|i: int| 0 <= i < r.len() ==> (#[trigger] r@[i].name@, r@[i].css@) == spec_palettes()[i],
{
    let r = vec![
        Palette { name: "green", css: GREEN_CSS },
        Palette { name: "purple", css: PURPLE_CSS },
        Palette { name: "orange", css: ORANGE_CSS },
        Palette { name: "mono", css: MONO_CSS },
    ];
    r
}

/// The CSS of the palette called `name`.
pub open spec fn spec_palette_css(name: Seq<char>) -> Option<Seq<char>> {
    if name == "green"@ {
        Some(GREEN_CSS@)
    } else if name == "purple"@ {
        Some(PURPLE_CSS@)
    } else if name == "orange"@ {
        Some(ORANGE_CSS@)
    } else if name == "mono"@ {
        Some(MONO_CSS@)
    } else {
        None
    }
}

/// The override CSS for a built-in palette name.
pub fn css(name: &str) -> (r: Option<&'static str>)
    ensures
        match r {
            Some(c) => spec_palette_css(name@) == Some(c@),
            None => spec_palette_css(name@) is None,
        },
{
    let v = to_chars(name);
    if eq_str(&v, "green") {
        Some(GREEN_CSS)
    } else if eq_str(&v, "purple") {
        Some(PURPLE_CSS)
    } else if eq_str(&v, "orange") {
        Some(ORANGE_CSS)
    } else if eq_str(&v, "mono") {
        Some(MONO_CSS)
    } else {
        None
    }
}

/// The palette names for messages: the default first, marked, then the
/// built-ins, comma-separated.
/// The palette names as listed to a user, the default first.
pub open spec fn available_text() -> Seq<char> {
    DEFAULT_NAME@ + " (default), "@ + "green"@ + ", "@ + "purple"@ + ", "@ + "orange"@ + ", "@ + "mono"@
}

pub fn available() -> (r: String)
    ensures
        r@ == available_text(),
{
    let mut out = to_chars(DEFAULT_NAME);
    push_str(&mut out, " (default), ");
    push_str(&mut out, "green");
    push_str(&mut out, ", ");
    push_str(&mut out, "purple");
    push_str(&mut out, ", ");
    push_str(&mut out, "orange");
    push_str(&mut out, ", ");
    push_str(&mut out, "mono");
    from_chars(&out)
}

} // verus!
