//! The home page: hero (name, text, tagline, action buttons, image with
//! its glow) and the features grid.

use vstd::prelude::*;

use crate::content::{Feature, FeatureIcon, Hero, HeroAction, HeroImage, Page};
use crate::markdown::highlight::{dec, push_dec};
use crate::markdown::preprocess::{escape_seq, push_escaped};
use crate::render::doc::{push_text_escaped, text_escape};
use crate::render::home::{resolve_action_link, spec_feature_grid_class, spec_resolve_action_link, feature_grid_class};
use crate::render::layout::{push_quote_escaped, quote_escape};
use crate::render::sidebar::{opt_lit, push_opt};
use crate::render::{spec_site_url, Site};
use crate::text::{eq_str, from_chars, push_str, to_chars};

verus! {

broadcast use vstd::string::group_string_axioms;

pub const HOME_OPEN: &'static str = "<div class=\"overflow-x-clip mb-24 md:mb-32\"><div class=\"-mt-[calc(var(--vp-nav-height)+var(--vp-layout-top-height,0px))] pt-[calc(var(--vp-nav-height)+var(--vp-layout-top-height,0px)+3rem)] px-6 pb-12 sm:pt-[calc(var(--vp-nav-height)+var(--vp-layout-top-height,0px)+5rem)] sm:px-12 sm:pb-16 lg:px-16 lg:pb-16\"><div class=\"flex flex-col mx-auto max-w-[72rem] lg:flex-row";

pub const HERO_MAIN: &'static str = "\"><div class=\"relative z-10 order-2 grow shrink-0";

pub const HERO_HEADING: &'static str = " lg:order-1 lg:w-[calc((100%/3)*2)]\"><h1 class=\"heading flex flex-col\">";

pub const NAME_OPEN: &'static str = "<span class=\"w-fit max-w-[24.5rem] tracking-[-0.025rem] leading-[1.25] text-[2rem] font-bold whitespace-pre-wrap text-(--vp-home-hero-name-color) [background-image:var(--vp-home-hero-name-background)] bg-clip-text [-webkit-text-fill-color:var(--vp-home-hero-name-color)]";

pub const TEXT_OPEN: &'static str = "<span class=\"w-fit max-w-[24.5rem] tracking-[-0.025rem] leading-[1.25] text-[2rem] font-bold whitespace-pre-wrap";

pub const SPAN_TAIL: &'static str = " sm:max-w-[36rem] sm:leading-[1.1666667] sm:text-[3rem] lg:leading-[1.1428571] lg:text-[3.5rem]\">";

pub const TAGLINE_OPEN: &'static str = "<p class=\"pt-2 max-w-[24.5rem] leading-[1.5555556] text-[1.125rem] font-medium whitespace-pre-wrap text-text-2";

pub const TAGLINE_TAIL: &'static str = " sm:pt-3 sm:max-w-[36rem] sm:leading-[1.6] sm:text-[1.25rem] lg:leading-[1.5] lg:text-[1.5rem]\">";

pub const ACTIONS_OPEN: &'static str = "<div class=\"flex flex-wrap m-[-0.375rem] pt-6";

pub const ACTIONS_TAIL: &'static str = " sm:pt-8\">";

pub const BUTTON_OPEN: &'static str = "<div class=\"shrink-0 p-[0.375rem]\"><a class=\"inline-flex items-center justify-center ";

pub const BUTTON_TAIL: &'static str = " h-10 rounded-[1.25rem] px-5 text-[0.875rem] border text-center font-semibold whitespace-nowrap no-underline transition-colors duration-[250ms] active:duration-100\" href=\"";

pub const BRAND_BUTTON: &'static str = "border-(--vp-button-brand-border) text-(--vp-button-brand-text) bg-(--vp-button-brand-bg) hover:border-(--vp-button-brand-hover-border) hover:text-(--vp-button-brand-hover-text) hover:bg-(--vp-button-brand-hover-bg) active:border-(--vp-button-brand-active-border) active:text-(--vp-button-brand-active-text) active:bg-(--vp-button-brand-active-bg)";

pub const ALT_BUTTON: &'static str = "border-(--vp-button-alt-border) text-(--vp-button-alt-text) bg-(--vp-button-alt-bg) hover:border-(--vp-button-alt-hover-border) hover:text-(--vp-button-alt-hover-text) hover:bg-(--vp-button-alt-hover-bg) active:border-(--vp-button-alt-active-border) active:text-(--vp-button-alt-active-text) active:bg-(--vp-button-alt-active-bg)";

pub const SPONSOR_BUTTON: &'static str = "border-(--vp-button-sponsor-border) text-(--vp-button-sponsor-text) bg-(--vp-button-sponsor-bg) hover:border-(--vp-button-sponsor-hover-border) hover:text-(--vp-button-sponsor-hover-text) hover:bg-(--vp-button-sponsor-hover-bg) active:border-(--vp-button-sponsor-active-border) active:text-(--vp-button-sponsor-active-text) active:bg-(--vp-button-sponsor-active-bg)";

pub const IMAGE_OPEN: &'static str = "<div class=\"order-1 m-[-4.75rem_-1.5rem_-3rem] sm:m-[-6.75rem_-1.5rem_-3rem] lg:order-2 lg:grow lg:m-0 lg:min-h-full\"><div class=\"relative mx-auto w-80 h-80 sm:w-[24.5rem] sm:h-[24.5rem] lg:flex lg:justify-center lg:items-center lg:w-full lg:h-full lg:[transform:translate(-2rem,-2rem)]\"><div class=\"absolute top-1/2 left-1/2 rounded-full w-48 h-48 [background-image:var(--vp-home-hero-image-background-image)] [filter:var(--vp-home-hero-image-filter)] [transform:translate(-50%,-50%)] sm:w-64 sm:h-64 lg:w-80 lg:h-80\"></div><img class=\"absolute top-1/2 left-1/2 max-w-48 max-h-48 w-full h-full object-contain [transform:translate(-50%,-50%)] [filter:drop-shadow(-2px_4px_6px_rgba(0,0,0,0.2))] p-[1.125rem] sm:max-w-64 sm:max-h-64 lg:max-w-80 lg:max-h-80\" src=\"";

pub const FEATURES_OPEN: &'static str = "<div class=\"relative px-6 sm:px-12 lg:px-16\"><div class=\"mx-auto max-w-[72rem]\"><ul class=\"flex flex-wrap m-[-0.5rem]\">";

pub const CARD_OPEN: &'static str = "\"><div class=\"block border border-bg-soft rounded-xl h-full bg-bg-soft transition-colors duration-[250ms]\"><article class=\"flex flex-col p-6 h-full\">";

pub const ICON_BOX: &'static str = "<div class=\"flex justify-center items-center mb-5 rounded-md bg-default-soft w-12 h-12 text-[1.5rem] transition-colors duration-[250ms]\">";

pub const DETAILS_OPEN: &'static str = "<p class=\"grow pt-2 leading-[1.7142857] text-[0.875rem] font-medium text-text-2\">";

pub const LINK_TEXT_OPEN: &'static str = "<div class=\"pt-2\"><p class=\"flex items-center text-[0.875rem] font-medium text-brand-1\">";

pub const LINK_CHEVRON: &'static str = "<svg class=\"inline-block size-[1em] ml-[0.375rem] size-[0.875rem]\" viewBox=\"0 0 24 24\" fill=\"none\" stroke=\"currentColor\" stroke-linecap=\"round\" stroke-linejoin=\"round\" stroke-width=\"2\" aria-hidden=\"true\"><path d=\"m9 18l6-6l-6-6\"/></svg>";

pub const MX_AUTO: &'static str = " mx-auto lg:mx-0";

// ── the hero ───────────────────────────────────────────────────────────

/// (src, alt) of a hero image: the light one of a pair.
pub open spec fn image_src(i: HeroImage) -> Seq<char> {
    match i {
        HeroImage::Simple(src) => src@,
        HeroImage::Detailed { src, .. } => src@,
        HeroImage::Dual { light, .. } => light@,
    }
}

pub open spec fn opt_text(o: Option<String>) -> Seq<char> {
    match o {
        Some(s) => s@,
        None => Seq::empty(),
    }
}

pub open spec fn image_alt(i: HeroImage) -> Seq<char> {
    match i {
        HeroImage::Simple(_) => Seq::empty(),
        HeroImage::Detailed { alt, .. } => opt_text(alt),
        HeroImage::Dual { alt, .. } => opt_text(alt),
    }
}

/// The button classes of an action's theme: `alt`, `sponsor`, else brand.
pub open spec fn button_theme(theme: Option<String>) -> Seq<char> {
    match theme {
        Some(t) => if t@ == "alt"@ {
            ALT_BUTTON@
        } else if t@ == "sponsor"@ {
            SPONSOR_BUTTON@
        } else {
            BRAND_BUTTON@
        },
        None => BRAND_BUTTON@,
    }
}

/// One action button, linking where the action's link resolves.
pub open spec fn action_html(base: Seq<char>, pages: Seq<Page>, a: HeroAction) -> Seq<char> {
    BUTTON_OPEN@ + button_theme(a.theme) + BUTTON_TAIL@ + escape_seq(spec_resolve_action_link(base, pages, a.link@))
        + "\">"@ + text_escape(a.text@) + "</a></div>"@
}

pub open spec fn actions_html(base: Seq<char>, pages: Seq<Page>, acts: Seq<HeroAction>) -> Seq<char>
    decreases acts.len(),
{
    if acts.len() == 0 {
        Seq::empty()
    } else {
        actions_html(base, pages, acts.drop_last()) + action_html(base, pages, acts.last())
    }
}

/// The hero name line, when set.
pub open spec fn name_part(name: Option<String>, hi: bool) -> Seq<char> {
    match name {
        Some(n) => NAME_OPEN@ + opt_lit(hi, MX_AUTO@) + SPAN_TAIL@ + text_escape(n@) + "</span>"@,
        None => Seq::empty(),
    }
}

/// The tagline, when set.
pub open spec fn tagline_part(tagline: Option<String>, hi: bool) -> Seq<char> {
    match tagline {
        Some(t) => TAGLINE_OPEN@ + opt_lit(hi, MX_AUTO@) + TAGLINE_TAIL@ + text_escape(t@) + "</p>"@,
        None => Seq::empty(),
    }
}

/// The name (when set), the text and the tagline (when set).
pub open spec fn hero_heading(name: Option<String>, text: Seq<char>, tagline: Option<String>, hi: bool) -> Seq<char> {
    name_part(name, hi) + TEXT_OPEN@ + opt_lit(hi, MX_AUTO@) + SPAN_TAIL@ + text_escape(text) + "</span></h1>"@
        + tagline_part(tagline, hi)
}

/// The action row, when there are actions.
pub open spec fn hero_actions(base: Seq<char>, pages: Seq<Page>, acts: Seq<HeroAction>, hi: bool) -> Seq<char> {
    if acts.len() == 0 {
        Seq::empty()
    } else {
        ACTIONS_OPEN@ + opt_lit(hi, " justify-center lg:justify-start"@) + ACTIONS_TAIL@ + actions_html(base, pages, acts)
            + "</div>"@
    }
}

/// The hero image with its glow, when set.
pub open spec fn hero_image(base: Seq<char>, image: Option<HeroImage>) -> Seq<char> {
    match image {
        Some(i) => IMAGE_OPEN@ + escape_seq(spec_site_url(base, image_src(i))) + "\" alt=\""@ + escape_seq(image_alt(i))
            + "\"></div></div>"@,
        None => Seq::empty(),
    }
}

pub open spec fn hero_section(
    base: Seq<char>,
    pages: Seq<Page>,
    name: Option<String>,
    text: Seq<char>,
    tagline: Option<String>,
    image: Option<HeroImage>,
    acts: Seq<HeroAction>,
) -> Seq<char> {
    let hi = image is Some;
    opt_lit(hi, " text-center lg:text-left"@) + HERO_MAIN@ + opt_lit(hi, " lg:max-w-[37rem]"@) + HERO_HEADING@
        + hero_heading(name, text, tagline, hi) + hero_actions(base, pages, acts, hi) + "</div>"@ + hero_image(
        base,
        image,
    ) + "</div></div>"@
}

// ── features ───────────────────────────────────────────────────────────

/// A feature icon: text as it is, an image as `<img>` with its optional
/// size.
pub open spec fn icon_markup(base: Seq<char>, icon: FeatureIcon) -> Seq<char> {
    match icon {
        FeatureIcon::Text(t) => t@,
        FeatureIcon::Image { src, alt, width, height } => img_markup(base, src@, alt, width, height),
        FeatureIcon::Dual { light, alt, width, height, .. } => img_markup(base, light@, alt, width, height),
    }
}

/// ` width="…"` / ` height="…"`, when set.
pub open spec fn size_attr(attr: Seq<char>, v: Option<u32>) -> Seq<char> {
    match v {
        Some(x) => attr + dec(x as nat) + "\""@,
        None => Seq::empty(),
    }
}

pub open spec fn img_markup(base: Seq<char>, src: Seq<char>, alt: Option<String>, w: Option<u32>, h: Option<u32>) -> Seq<
    char,
> {
    "<img src=\""@ + spec_site_url(base, src) + "\" alt=\""@ + quote_escape(opt_text(alt)) + "\""@ + size_attr(
        " width=\""@,
        w,
    ) + size_attr(" height=\""@, h) + ">"@
}

pub open spec fn icon_part(base: Seq<char>, icon: Option<FeatureIcon>) -> Seq<char> {
    match icon {
        Some(i) => ICON_BOX@ + icon_markup(base, i) + "</div>"@,
        None => Seq::empty(),
    }
}

pub open spec fn details_part(details: Option<String>) -> Seq<char> {
    match details {
        Some(d) => DETAILS_OPEN@ + text_escape(d@) + "</p>"@,
        None => Seq::empty(),
    }
}

pub open spec fn link_part(link_text: Option<String>) -> Seq<char> {
    match link_text {
        Some(l) => LINK_TEXT_OPEN@ + text_escape(l@) + LINK_CHEVRON@ + "</p></div>"@,
        None => Seq::empty(),
    }
}

/// One feature card in a grid of `n`.
pub open spec fn feature_html(base: Seq<char>, f: Feature, n: nat) -> Seq<char> {
    "<li class=\"p-2 w-full"@ + spec_feature_grid_class(n) + CARD_OPEN@ + icon_part(base, f.icon)
        + "<h2 class=\"leading-[1.5] text-[1rem] font-semibold\">"@ + text_escape(f.title@) + "</h2>"@ + details_part(
        f.details,
    ) + link_part(f.link_text) + "</article></div></li>"@
}

pub open spec fn features_html(base: Seq<char>, fs: Seq<Feature>, n: nat) -> Seq<char>
    decreases fs.len(),
{
    if fs.len() == 0 {
        Seq::empty()
    } else {
        features_html(base, fs.drop_last(), n) + feature_html(base, fs.last(), n)
    }
}

pub open spec fn features_section(base: Seq<char>, fs: Seq<Feature>) -> Seq<char> {
    if fs.len() == 0 {
        Seq::empty()
    } else {
        FEATURES_OPEN@ + features_html(base, fs, fs.len()) + "</ul></div></div>"@
    }
}

/// The home page of a hero (absent: an empty one) and its features.
pub open spec fn spec_home_page(base: Seq<char>, pages: Seq<Page>, hero: Option<Hero>, fs: Seq<Feature>) -> Seq<char> {
    HOME_OPEN@ + (match hero {
        Some(h) => hero_section(base, pages, h.name, opt_text(h.text), h.tagline, h.image, h.actions@),
        None => hero_section(base, pages, None, Seq::empty(), None, None, Seq::empty()),
    }) + features_section(base, fs) + "</div>"@
}

// ── rendering ──────────────────────────────────────────────────────────

fn button_theme_str(theme: &Option<String>) -> (r: &'static str)
    ensures
        r@ == button_theme(*theme),
{
    match theme {
        Some(t) => {
            let tv = to_chars(t.as_str());
            if eq_str(&tv, "alt") {
                ALT_BUTTON
            } else if eq_str(&tv, "sponsor") {
                SPONSOR_BUTTON
            } else {
                BRAND_BUTTON
            }
        },
        None => BRAND_BUTTON,
    }
}

fn push_action(site: &Site, a: &HeroAction, out: &mut Vec<char>)
    ensures
        final(out)@ == old(out)@ + action_html(site.config.base@, site.content.pages@, *a),
{
    let ghost start = out@;
    push_str(out, BUTTON_OPEN);
    push_str(out, button_theme_str(&a.theme));
    push_str(out, BUTTON_TAIL);
    let href = resolve_action_link(site, a.link.as_str());
    push_escaped(out, &to_chars(href.as_str()));
    push_str(out, "\">");
    let ghost s0 = out@;
    push_text_escaped(out, &to_chars(a.text.as_str()));
    push_str(out, "</a></div>");
    assert(out@ =~= start + action_html(site.config.base@, site.content.pages@, *a));
}

fn push_hero_actions(site: &Site, acts: &Vec<HeroAction>, hi: bool, out: &mut Vec<char>)
    ensures
        final(out)@ == old(out)@ + hero_actions(site.config.base@, site.content.pages@, acts@, hi),
{
    let ghost start = out@;
    if acts.len() == 0 {
        assert(out@ =~= start + hero_actions(site.config.base@, site.content.pages@, acts@, hi));
        return;
    }
    push_str(out, ACTIONS_OPEN);
    push_opt(out, hi, " justify-center lg:justify-start");
    push_str(out, ACTIONS_TAIL);
    let ghost s0 = out@;
    let mut i: usize = 0;
    assert(acts@.take(0) =~= Seq::<HeroAction>::empty());
    while i < acts.len()
        invariant
            i <= acts.len(),
            out@ == s0 + actions_html(site.config.base@, site.content.pages@, acts@.take(i as int)),
        decreases acts.len() - i,
    {
        proof {
            assert(acts@.take(i as int + 1).drop_last() =~= acts@.take(i as int));
        }
        push_action(site, &acts[i], out);
        i += 1;
    }
    assert(acts@.take(i as int) =~= acts@);
    push_str(out, "</div>");
    assert(out@ =~= start + hero_actions(site.config.base@, site.content.pages@, acts@, hi));
}

fn push_name_part(name: &Option<String>, hi: bool, out: &mut Vec<char>)
    ensures
        final(out)@ == old(out)@ + name_part(*name, hi),
{
    let ghost start = out@;
    match name {
        Some(n) => {
            push_str(out, NAME_OPEN);
            push_opt(out, hi, MX_AUTO);
            push_str(out, SPAN_TAIL);
            push_text_escaped(out, &to_chars(n.as_str()));
            push_str(out, "</span>");
        },
        None => {},
    }
    assert(out@ =~= start + name_part(*name, hi));
}

fn push_tagline_part(tagline: &Option<String>, hi: bool, out: &mut Vec<char>)
    ensures
        final(out)@ == old(out)@ + tagline_part(*tagline, hi),
{
    let ghost start = out@;
    match tagline {
        Some(t) => {
            push_str(out, TAGLINE_OPEN);
            push_opt(out, hi, MX_AUTO);
            push_str(out, TAGLINE_TAIL);
            push_text_escaped(out, &to_chars(t.as_str()));
            push_str(out, "</p>");
        },
        None => {},
    }
    assert(out@ =~= start + tagline_part(*tagline, hi));
}

fn push_hero_heading(name: &Option<String>, text: &Vec<char>, tagline: &Option<String>, hi: bool, out: &mut Vec<char>)
    ensures
        final(out)@ == old(out)@ + hero_heading(*name, text@, *tagline, hi),
{
    let ghost start = out@;
    push_name_part(name, hi, out);
    push_str(out, TEXT_OPEN);
    push_opt(out, hi, MX_AUTO);
    push_str(out, SPAN_TAIL);
    push_text_escaped(out, text);
    push_str(out, "</span></h1>");
    push_tagline_part(tagline, hi, out);
    assert(out@ =~= start + hero_heading(*name, text@, *tagline, hi));
}

fn push_hero_image(site: &Site, image: &Option<HeroImage>, out: &mut Vec<char>)
    ensures
        final(out)@ == old(out)@ + hero_image(site.config.base@, *image),
{
    let ghost start = out@;
    match image {
        Some(i) => {
            let (src, alt): (&String, Option<&String>) = match i {
                HeroImage::Simple(src) => (src, None),
                HeroImage::Detailed { src, alt } => (src, alt.as_ref()),
                HeroImage::Dual { light, alt, .. } => (light, alt.as_ref()),
            };
            push_str(out, IMAGE_OPEN);
            let url = site.url(src.as_str());
            push_escaped(out, &to_chars(url.as_str()));
            push_str(out, "\" alt=\"");
            let ghost s0 = out@;
            match alt {
                Some(a) => push_escaped(out, &to_chars(a.as_str())),
                None => {},
            }
            assert(out@ =~= s0 + escape_seq(image_alt(*i)));
            push_str(out, "\"></div></div>");
            assert(out@ =~= start + hero_image(site.config.base@, *image));
        },
        None => {
            assert(out@ =~= start + hero_image(site.config.base@, *image));
        },
    }
}

#[verifier::spinoff_prover]
fn push_hero_section(
    site: &Site,
    name: &Option<String>,
    text: &Vec<char>,
    tagline: &Option<String>,
    image: &Option<HeroImage>,
    acts: &Vec<HeroAction>,
    out: &mut Vec<char>,
)
    ensures
        final(out)@ == old(out)@ + hero_section(
            site.config.base@,
            site.content.pages@,
            *name,
            text@,
            *tagline,
            *image,
            acts@,
        ),
{
    let ghost start = out@;
    let hi = image.is_some();
    push_opt(out, hi, " text-center lg:text-left");
    push_str(out, HERO_MAIN);
    push_opt(out, hi, " lg:max-w-[37rem]");
    push_str(out, HERO_HEADING);
    let ghost s0 = out@;
    push_hero_heading(name, text, tagline, hi, out);
    let ghost s1 = out@;
    push_hero_actions(site, acts, hi, out);
    let ghost s2 = out@;
    push_str(out, "</div>");
    push_hero_image(site, image, out);
    let ghost s3 = out@;
    push_str(out, "</div></div>");
    assert(out@ =~= start + hero_section(site.config.base@, site.content.pages@, *name, text@, *tagline, *image, acts@));
}

fn push_size_attr(attr: &str, v: Option<u32>, out: &mut Vec<char>)
    ensures
        final(out)@ == old(out)@ + size_attr(attr@, v),
{
    let ghost start = out@;
    match v {
        Some(x) => {
            push_str(out, attr);
            push_dec(out, x as usize);
            push_str(out, "\"");
        },
        None => {},
    }
    assert(out@ =~= start + size_attr(attr@, v));
}

fn push_alt_quoted(alt: &Option<String>, out: &mut Vec<char>)
    ensures
        final(out)@ == old(out)@ + quote_escape(opt_text(*alt)),
{
    match alt {
        Some(a) => push_quote_escaped(out, &to_chars(a.as_str())),
        None => {
            assert(quote_escape(Seq::<char>::empty()) =~= Seq::<char>::empty());
            assert(out@ =~= out@ + Seq::<char>::empty());
        },
    }
}

#[verifier::spinoff_prover]
fn push_img(site: &Site, src: &String, alt: &Option<String>, w: Option<u32>, h: Option<u32>, out: &mut Vec<char>)
    ensures
        final(out)@ == old(out)@ + img_markup(site.config.base@, src@, *alt, w, h),
{
    let ghost start = out@;
    push_str(out, "<img src=\"");
    let url = site.url(src.as_str());
    push_str(out, url.as_str());
    push_str(out, "\" alt=\"");
    push_alt_quoted(alt, out);
    push_str(out, "\"");
    push_size_attr(" width=\"", w, out);
    push_size_attr(" height=\"", h, out);
    push_str(out, ">");
    assert(out@ =~= start + img_markup(site.config.base@, src@, *alt, w, h));
}

fn push_icon(site: &Site, icon: &FeatureIcon, out: &mut Vec<char>)
    ensures
        final(out)@ == old(out)@ + icon_markup(site.config.base@, *icon),
{
    match icon {
        FeatureIcon::Text(t) => push_str(out, t.as_str()),
        FeatureIcon::Image { src, alt, width, height } => push_img(site, src, alt, *width, *height, out),
        FeatureIcon::Dual { light, alt, width, height, .. } => push_img(site, light, alt, *width, *height, out),
    }
}

fn push_icon_part(site: &Site, icon: &Option<FeatureIcon>, out: &mut Vec<char>)
    ensures
        final(out)@ == old(out)@ + icon_part(site.config.base@, *icon),
{
    let ghost start = out@;
    match icon {
        Some(i) => {
            push_str(out, ICON_BOX);
            push_icon(site, i, out);
            push_str(out, "</div>");
        },
        None => {},
    }
    assert(out@ =~= start + icon_part(site.config.base@, *icon));
}

fn push_details_part(details: &Option<String>, out: &mut Vec<char>)
    ensures
        final(out)@ == old(out)@ + details_part(*details),
{
    let ghost start = out@;
    match details {
        Some(d) => {
            push_str(out, DETAILS_OPEN);
            push_text_escaped(out, &to_chars(d.as_str()));
            push_str(out, "</p>");
        },
        None => {},
    }
    assert(out@ =~= start + details_part(*details));
}

fn push_link_part(link_text: &Option<String>, out: &mut Vec<char>)
    ensures
        final(out)@ == old(out)@ + link_part(*link_text),
{
    let ghost start = out@;
    match link_text {
        Some(l) => {
            push_str(out, LINK_TEXT_OPEN);
            push_text_escaped(out, &to_chars(l.as_str()));
            push_str(out, LINK_CHEVRON);
            push_str(out, "</p></div>");
        },
        None => {},
    }
    assert(out@ =~= start + link_part(*link_text));
}

#[verifier::spinoff_prover]
fn push_feature(site: &Site, f: &Feature, n: usize, out: &mut Vec<char>)
    ensures
        final(out)@ == old(out)@ + feature_html(site.config.base@, *f, n as nat),
{
    let ghost start = out@;
    push_str(out, "<li class=\"p-2 w-full");
    push_str(out, feature_grid_class(n));
    push_str(out, CARD_OPEN);
    push_icon_part(site, &f.icon, out);
    push_str(out, "<h2 class=\"leading-[1.5] text-[1rem] font-semibold\">");
    push_text_escaped(out, &to_chars(f.title.as_str()));
    push_str(out, "</h2>");
    push_details_part(&f.details, out);
    push_link_part(&f.link_text, out);
    push_str(out, "</article></div></li>");
    assert(out@ =~= start + feature_html(site.config.base@, *f, n as nat));
}

fn push_features(site: &Site, fs: &Vec<Feature>, out: &mut Vec<char>)
    ensures
        final(out)@ == old(out)@ + features_section(site.config.base@, fs@),
{
    let ghost start = out@;
    if fs.len() == 0 {
        assert(out@ =~= start + features_section(site.config.base@, fs@));
        return;
    }
    push_str(out, FEATURES_OPEN);
    let ghost s0 = out@;
    let n = fs.len();
    let mut i: usize = 0;
    assert(fs@.take(0) =~= Seq::<Feature>::empty());
    while i < fs.len()
        invariant
            i <= fs.len(),
            n == fs.len(),
            out@ == s0 + features_html(site.config.base@, fs@.take(i as int), n as nat),
        decreases fs.len() - i,
    {
        proof {
            assert(fs@.take(i as int + 1).drop_last() =~= fs@.take(i as int));
        }
        push_feature(site, &fs[i], n, out);
        i += 1;
    }
    assert(fs@.take(i as int) =~= fs@);
    push_str(out, "</ul></div></div>");
    assert(out@ =~= start + features_section(site.config.base@, fs@));
}

/// The home page markup of `page`: its hero (an empty one when unset)
/// and its features grid.
#[verifier::spinoff_prover]
pub fn home_page_html(site: &Site, page: &Page) -> (r: String)
    ensures
        r@ == spec_home_page(site.config.base@, site.content.pages@, page.front.hero, page.front.features@),
{
    let mut out = to_chars(HOME_OPEN);
    match &page.front.hero {
        Some(h) => {
            let text = match &h.text {
                Some(t) => to_chars(t.as_str()),
                None => Vec::new(),
            };
            push_hero_section(site, &h.name, &text, &h.tagline, &h.image, &h.actions, &mut out);
        },
        None => {
            let text: Vec<char> = Vec::new();
            let acts: Vec<HeroAction> = Vec::new();
            push_hero_section(site, &None, &text, &None, &None, &acts, &mut out);
            assert(acts@ =~= Seq::<HeroAction>::empty());
        },
    }
    let ghost s0 = out@;
    push_features(site, &page.front.features, &mut out);
    push_str(&mut out, "</div>");
    assert(out@ =~= spec_home_page(site.config.base@, site.content.pages@, page.front.hero, page.front.features@));
    from_chars(&out)
}

} // verus!
