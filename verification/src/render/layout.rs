//! Document-shell text: the `[[head]]` tags, the pre-paint appearance
//! script, link attributes, and navbar entry state.

use vstd::prelude::*;

use crate::config::{Appearance, HeadTag, NavItem, SocialIcon};
use crate::markdown::preprocess::{contains_seq, contains_v};
use crate::text::{eq_str, from_chars, ix, push_str, starts_with, starts_with_v, to_chars};

verus! {

broadcast use vstd::string::group_string_axioms;

// ── appearance ─────────────────────────────────────────────────────────

/// Toggleable, light by default: the stored choice, else the system.
pub const FOLLOW_SYSTEM_SCRIPT: &'static str = "\n        var t = localStorage.getItem('vitepress-theme-appearance') || 'auto';\n        var dark = t === 'dark' || (t === 'auto' && window.matchMedia('(prefers-color-scheme: dark)').matches);\n        document.documentElement.classList.toggle('dark', dark);";

pub const DARK_DEFAULT_SCRIPT: &'static str = "\n        var s = localStorage.getItem('vitepress-theme-appearance');\n        var dark = s !== 'light';\n        document.documentElement.classList.toggle('dark', dark);";

pub const LIGHT_ONLY_SCRIPT: &'static str = "\n        document.documentElement.classList.remove('dark');";

pub const FORCE_DARK_SCRIPT: &'static str = "\n        document.documentElement.classList.add('dark');";

pub const FORCE_AUTO_SCRIPT: &'static str = "\n        document.documentElement.classList.toggle('dark', window.matchMedia('(prefers-color-scheme: dark)').matches);";

/// The pre-paint body for an `appearance` setting.
pub open spec fn appearance_body(a: Appearance) -> Seq<char> {
    match a {
        Appearance::Toggleable { default_dark } => if default_dark {
            DARK_DEFAULT_SCRIPT@
        } else {
            FOLLOW_SYSTEM_SCRIPT@
        },
        Appearance::LightOnly => LIGHT_ONLY_SCRIPT@,
        Appearance::ForceDark => FORCE_DARK_SCRIPT@,
        Appearance::ForceAuto => FORCE_AUTO_SCRIPT@,
    }
}

/// The blocking script that resolves the appearance before first paint
/// (and marks Apple platforms).
pub open spec fn spec_appearance_script(a: Appearance) -> Seq<char> {
    "<script>(function () { try {"@ + appearance_body(a)
        + "} catch (e) {} })(); if (/Mac|iPhone|iPad/.test(navigator.platform)) document.documentElement.classList.add('mac');</script>"@
}

pub fn appearance_script(appearance: &Appearance) -> (r: String)
    ensures
        r@ == spec_appearance_script(*appearance),
{
    let body = match appearance {
        Appearance::Toggleable { default_dark } => if *default_dark {
            DARK_DEFAULT_SCRIPT
        } else {
            FOLLOW_SYSTEM_SCRIPT
        },
        Appearance::LightOnly => LIGHT_ONLY_SCRIPT,
        Appearance::ForceDark => FORCE_DARK_SCRIPT,
        Appearance::ForceAuto => FORCE_AUTO_SCRIPT,
    };
    let mut v = to_chars("<script>(function () { try {");
    push_str(&mut v, body);
    push_str(
        &mut v,
        "} catch (e) {} })(); if (/Mac|iPhone|iPad/.test(navigator.platform)) document.documentElement.classList.add('mac');</script>",
    );
    from_chars(&v)
}

// ── head tags ──────────────────────────────────────────────────────────

/// `"` as `&quot;`.
pub open spec fn quote_escape(s: Seq<char>) -> Seq<char>
    decreases s.len(),
{
    if s.len() == 0 {
        Seq::empty()
    } else {
        quote_escape(s.drop_last()) + if s.last() == '"' {
            "&quot;"@
        } else {
            seq![s.last()]
        }
    }
}

pub(crate) fn push_quote_escaped(out: &mut Vec<char>, s: &Vec<char>)
    ensures
        final(out)@ == old(out)@ + quote_escape(s@),
{
    let ghost start = out@;
    let mut i: usize = 0;
    assert(s@.take(0) =~= Seq::<char>::empty());
    while i < s.len()
        invariant
            i <= s.len(),
            out@ == start + quote_escape(s@.take(ix(i))),
        decreases s.len() - i,
    {
        let ghost t = s@.take(ix(i) + 1);
        assert(t.drop_last() =~= s@.take(ix(i)));
        if s[i] == '"' {
            push_str(out, "&quot;");
        } else {
            out.push(s[i]);
        }
        proof {
            reveal_strlit("&quot;");
            assert(out@ =~= start + quote_escape(t));
        }
        i += 1;
    }
    assert(s@.take(ix(i)) =~= s@);
}

pub open spec fn attrs_text(attrs: Seq<(String, String)>) -> Seq<char>
    decreases attrs.len(),
{
    if attrs.len() == 0 {
        Seq::empty()
    } else {
        attrs_text(attrs.drop_last()) + " "@ + attrs.last().0@ + "=\""@ + quote_escape(attrs.last().1@) + "\""@
    }
}

/// One `[[head]]` tag: attributes in order (`"` escaped); `script` tags
/// and tags with children get their content and a closing tag, others
/// are self-closed.
pub open spec fn head_tag_html(t: HeadTag) -> Seq<char> {
    "<"@ + t.tag@ + attrs_text(t.attrs@) + if t.tag@ == "script"@ || t.children is Some {
        ">"@ + (match t.children {
            Some(c) => c@,
            None => Seq::empty(),
        }) + "</"@ + t.tag@ + ">"@
    } else {
        "/>"@
    }
}

pub open spec fn spec_head_tags(tags: Seq<HeadTag>) -> Seq<char>
    decreases tags.len(),
{
    if tags.len() == 0 {
        Seq::empty()
    } else {
        spec_head_tags(tags.drop_last()) + head_tag_html(tags.last())
    }
}

pub fn serialize_head_tags(tags: &Vec<HeadTag>) -> (r: String)
    ensures
        r@ == spec_head_tags(tags@),
{
    let mut out: Vec<char> = Vec::new();
    let mut i: usize = 0;
    assert(tags@.take(0) =~= Seq::<HeadTag>::empty());
    while i < tags.len()
        invariant
            i <= tags.len(),
            out@ == spec_head_tags(tags@.take(ix(i))),
        decreases tags.len() - i,
    {
        let tag = &tags[i];
        let ghost before = out@;
        out.push('<');
        push_str(&mut out, tag.tag.as_str());
        let ghost after_name = out@;
        let mut j: usize = 0;
        assert(tag.attrs@.take(0) =~= Seq::<(String, String)>::empty());
        while j < tag.attrs.len()
            invariant
                j <= tag.attrs.len(),
                out@ == after_name + attrs_text(tag.attrs@.take(ix(j))),
            decreases tag.attrs.len() - j,
        {
            let ghost a = tag.attrs@.take(ix(j) + 1);
            assert(a.drop_last() =~= tag.attrs@.take(ix(j)));
            push_str(&mut out, " ");
            push_str(&mut out, tag.attrs[j].0.as_str());
            push_str(&mut out, "=\"");
            push_quote_escaped(&mut out, &to_chars(tag.attrs[j].1.as_str()));
            push_str(&mut out, "\"");
            assert(out@ =~= after_name + attrs_text(a));
            j += 1;
        }
        assert(tag.attrs@.take(ix(j)) =~= tag.attrs@);
        proof {
            reveal_strlit("script");
        }
        if eq_str(&to_chars(tag.tag.as_str()), "script") || tag.children.is_some() {
            out.push('>');
            match &tag.children {
                Some(c) => push_str(&mut out, c.as_str()),
                None => {},
            }
            push_str(&mut out, "</");
            push_str(&mut out, tag.tag.as_str());
            out.push('>');
        } else {
            push_str(&mut out, "/>");
        }
        proof {
            reveal_strlit("<");
            reveal_strlit(">");
            let t = tags@.take(ix(i) + 1);
            assert(t.drop_last() =~= tags@.take(ix(i)));
            assert(out@ =~= before + head_tag_html(*tag));
        }
        i += 1;
    }
    assert(tags@.take(ix(i)) =~= tags@);
    from_chars(&out)
}

// ── navbar ─────────────────────────────────────────────────────────────

/// A navbar entry is active on a page: by its `activeMatch` prefix when
/// one is set, else when the page URL contains its link.
pub open spec fn spec_nav_item_active(item: NavItem, current_url: Seq<char>) -> bool {
    match item.active_match {
        Some(am) if am@.len() > 0 => starts_with(current_url, am@),
        _ => match item.link {
            Some(l) => contains_seq(current_url, l@),
            None => false,
        },
    }
}

pub fn nav_item_active(item: &NavItem, current_url: &str) -> (b: bool)
    ensures
        b == spec_nav_item_active(*item, current_url@),
{
    let cu = to_chars(current_url);
    match &item.active_match {
        Some(am) => {
            let av = to_chars(am.as_str());
            if av.len() > 0 {
                return starts_with_v(&cu, &av);
            }
        },
        None => {},
    }
    match &item.link {
        Some(l) => contains_v(&cu, &to_chars(l.as_str())),
        None => false,
    }
}

/// A social link's accessible label: its icon name (`link` for inline
/// SVG icons).
pub fn social_label(icon: &SocialIcon) -> (r: String)
    ensures
        r@ == (match icon {
            SocialIcon::Name(n) => n@,
            SocialIcon::Svg { .. } => "link"@,
        }),
{
    match icon {
        SocialIcon::Name(n) => n.clone(),
        SocialIcon::Svg { .. } => String::from_str("link"),
    }
}

// ── link attributes ────────────────────────────────────────────────────

/// Attribute escaping for `target` / `rel` values: `&`, `"`, `<`.
pub open spec fn attr_escape(s: Seq<char>) -> Seq<char>
    decreases s.len(),
{
    if s.len() == 0 {
        Seq::empty()
    } else {
        attr_escape(s.drop_last()) + if s.last() == '&' {
            "&amp;"@
        } else if s.last() == '"' {
            "&quot;"@
        } else if s.last() == '<' {
            "&lt;"@
        } else {
            seq![s.last()]
        }
    }
}

fn push_attr_escaped(out: &mut Vec<char>, s: &Vec<char>)
    ensures
        final(out)@ == old(out)@ + attr_escape(s@),
{
    let ghost start = out@;
    let mut i: usize = 0;
    assert(s@.take(0) =~= Seq::<char>::empty());
    while i < s.len()
        invariant
            i <= s.len(),
            out@ == start + attr_escape(s@.take(ix(i))),
        decreases s.len() - i,
    {
        let ghost t = s@.take(ix(i) + 1);
        assert(t.drop_last() =~= s@.take(ix(i)));
        if s[i] == '&' {
            push_str(out, "&amp;");
        } else if s[i] == '"' {
            push_str(out, "&quot;");
        } else if s[i] == '<' {
            push_str(out, "&lt;");
        } else {
            out.push(s[i]);
        }
        proof {
            reveal_strlit("&amp;");
            reveal_strlit("&quot;");
            reveal_strlit("&lt;");
            assert(out@ =~= start + attr_escape(t));
        }
        i += 1;
    }
    assert(s@.take(ix(i)) =~= s@);
}

/// Optional ` target="…"` and ` rel="…"` attributes, omitted when unset.
pub open spec fn spec_opt_attrs(target: Option<Seq<char>>, rel: Option<Seq<char>>) -> Seq<char> {
    (match target {
        Some(t) => " target=\""@ + attr_escape(t) + "\""@,
        None => Seq::empty(),
    }) + (match rel {
        Some(r) => " rel=\""@ + attr_escape(r) + "\""@,
        None => Seq::empty(),
    })
}

pub fn opt_attrs(target: Option<&str>, rel: Option<&str>) -> (r: String)
    ensures
        r@ == spec_opt_attrs(
            match target {
                Some(t) => Some(t@),
                None => None,
            },
            match rel {
                Some(x) => Some(x@),
                None => None,
            },
        ),
{
    let mut out: Vec<char> = Vec::new();
    match target {
        Some(t) => {
            push_str(&mut out, " target=\"");
            push_attr_escaped(&mut out, &to_chars(t));
            push_str(&mut out, "\"");
        },
        None => {},
    }
    match rel {
        Some(x) => {
            push_str(&mut out, " rel=\"");
            push_attr_escaped(&mut out, &to_chars(x));
            push_str(&mut out, "\"");
        },
        None => {},
    }
    from_chars(&out)
}

} // verus!
