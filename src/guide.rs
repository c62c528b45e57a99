//! Whole-page extraction: the passes over every styled element and every
//! style sheet, the component categories, and the assembled style guide.

use vstd::prelude::*;
use crate::model::{Bucket, ColorScheme, ComponentStyle, SpacingSystem, StyleGuide, Typography, bucket_cap, css_literals, insert_all, lemma_insert_all_concat, strs, style_literals};
use crate::extract::{extract_colors_from_css, extract_colors_from_style, extract_spacing_from_css, extract_spacing_from_style, extract_typography_from_css, extract_typography_from_style};
use crate::components::{category_samples, component_views, sample_category};
use crate::page::{pair_views, select_attributes, select_texts, selected_attributes, selected_texts};

verus! {

/// Literals of the `style` attributes of `elems`, element by element.
pub open spec fn inline_literals(elems: Seq<(Option<Seq<char>>, Option<Seq<char>>)>, b: Bucket) -> Seq<
    Seq<char>,
>
    decreases elems.len(),
{
    if elems.len() == 0 {
        seq![]
    } else {
        inline_literals(elems.drop_last(), b) + match elems.last().0 {
            Some(st) => style_literals(st, b),
            None => seq![],
        }
    }
}

/// Literals of several style sheets, one after another.
pub open spec fn sheet_literals(sheets: Seq<Seq<char>>, b: Bucket) -> Seq<Seq<char>>
    decreases sheets.len(),
{
    if sheets.len() == 0 {
        seq![]
    } else {
        sheet_literals(sheets.drop_last(), b) + css_literals(sheets.last(), b)
    }
}

/// The first `n` entries of `s`.
pub open spec fn capped(s: Seq<Seq<char>>, n: nat) -> Seq<Seq<char>> {
    if s.len() <= n {
        s
    } else {
        s.take(n as int)
    }
}

/// One set of a style guide: the distinct literals of the inline styles,
/// then of the style sheets, in order of discovery, the first `bucket_cap`
/// of them kept.
pub open spec fn bucket_set(
    styled: Seq<(Option<Seq<char>>, Option<Seq<char>>)>,
    sheets: Seq<Seq<char>>,
    b: Bucket,
) -> Seq<Seq<char>> {
    capped(insert_all(seq![], inline_literals(styled, b) + sheet_literals(sheets, b)), bucket_cap(b))
}

pub open spec fn colors_match(
    c: ColorScheme,
    styled: Seq<(Option<Seq<char>>, Option<Seq<char>>)>,
    sheets: Seq<Seq<char>>,
) -> bool {
    &&& strs(c.primary_colors@) == bucket_set(styled, sheets, Bucket::Primary)
    &&& strs(c.background_colors@) == bucket_set(styled, sheets, Bucket::Background)
    &&& strs(c.text_colors@) == bucket_set(styled, sheets, Bucket::TextColor)
    &&& strs(c.border_colors@) == bucket_set(styled, sheets, Bucket::Border)
}

pub open spec fn typography_matches(
    t: Typography,
    styled: Seq<(Option<Seq<char>>, Option<Seq<char>>)>,
    sheets: Seq<Seq<char>>,
) -> bool {
    &&& strs(t.font_families@) == bucket_set(styled, sheets, Bucket::FontFamily)
    &&& strs(t.font_sizes@) == bucket_set(styled, sheets, Bucket::FontSize)
    &&& strs(t.font_weights@) == bucket_set(styled, sheets, Bucket::FontWeight)
    &&& strs(t.line_heights@) == bucket_set(styled, sheets, Bucket::LineHeight)
}

pub open spec fn spacing_matches(
    s: SpacingSystem,
    styled: Seq<(Option<Seq<char>>, Option<Seq<char>>)>,
    sheets: Seq<Seq<char>>,
) -> bool {
    &&& strs(s.margins@) == bucket_set(styled, sheets, Bucket::Margin)
    &&& strs(s.paddings@) == bucket_set(styled, sheets, Bucket::Padding)
    &&& strs(s.gaps@) == bucket_set(styled, sheets, Bucket::Gap)
}

proof fn lemma_inline_step(
    elems: Seq<(Option<Seq<char>>, Option<Seq<char>>)>,
    k: int,
    b: Bucket,
)
    requires
        0 <= k < elems.len(),
    ensures
        insert_all(seq![], inline_literals(elems.take(k + 1), b)) == insert_all(
            insert_all(seq![], inline_literals(elems.take(k), b)),
            match elems[k].0 {
                Some(st) => style_literals(st, b),
                None => seq![],
            },
        ),
{
    assert(elems.take(k + 1).drop_last() =~= elems.take(k));
    lemma_insert_all_concat(
        seq![],
        inline_literals(elems.take(k), b),
        match elems[k].0 {
            Some(st) => style_literals(st, b),
            None => seq![],
        },
    );
}

proof fn lemma_sheet_step(sheets: Seq<Seq<char>>, k: int, b: Bucket, init: Seq<Seq<char>>)
    requires
        0 <= k < sheets.len(),
    ensures
        insert_all(init, sheet_literals(sheets.take(k + 1), b)) == insert_all(
            insert_all(init, sheet_literals(sheets.take(k), b)),
            css_literals(sheets[k], b),
        ),
{
    assert(sheets.take(k + 1).drop_last() =~= sheets.take(k));
    lemma_insert_all_concat(init, sheet_literals(sheets.take(k), b), css_literals(sheets[k], b));
}

proof fn lemma_whole(
    styled: Seq<(Option<Seq<char>>, Option<Seq<char>>)>,
    sheets: Seq<Seq<char>>,
    b: Bucket,
)
    ensures
        insert_all(seq![], inline_literals(styled, b) + sheet_literals(sheets, b)) == insert_all(
            insert_all(seq![], inline_literals(styled, b)),
            sheet_literals(sheets, b),
        ),
        styled.take(styled.len() as int) == styled,
        sheets.take(sheets.len() as int) == sheets,
{
    lemma_insert_all_concat(seq![], inline_literals(styled, b), sheet_literals(sheets, b));
    assert(styled.take(styled.len() as int) =~= styled);
    assert(sheets.take(sheets.len() as int) =~= sheets);
}

/// Keeps the first `n` entries of `set`.
fn cap_set(set: &mut Vec<String>, n: usize)
    ensures
        strs(final(set)@) == capped(strs(old(set)@), n as nat),
{
    set.truncate(n);
    assert(strs(set@) =~= capped(strs(old(set)@), n as nat));
}

/// The color scheme of a page with the given styled elements (their `style`
/// and `class` attributes) and style sheets.
pub fn extract_colors(styled: &Vec<(Option<String>, Option<String>)>, sheets: &Vec<String>) -> (r:
    ColorScheme)
    ensures
        colors_match(r, pair_views(styled@), strs(sheets@)),
{
    let ghost es = pair_views(styled@);
    let ghost ss = strs(sheets@);
    let mut p: Vec<String> = Vec::new();
    let mut bg: Vec<String> = Vec::new();
    let mut t: Vec<String> = Vec::new();
    let mut bd: Vec<String> = Vec::new();
    let mut k: usize = 0;
    while k < styled.len()
        invariant
            k <= styled@.len(),
            es == pair_views(styled@),
            strs(p@) == insert_all(seq![], inline_literals(es.take(k as int), Bucket::Primary)),
            strs(bg@) == insert_all(seq![], inline_literals(es.take(k as int), Bucket::Background)),
            strs(t@) == insert_all(seq![], inline_literals(es.take(k as int), Bucket::TextColor)),
            strs(bd@) == insert_all(seq![], inline_literals(es.take(k as int), Bucket::Border)),
        decreases styled@.len() - k,
    {
        proof {
            lemma_inline_step(es, k as int, Bucket::Primary);
            lemma_inline_step(es, k as int, Bucket::Background);
            lemma_inline_step(es, k as int, Bucket::TextColor);
            lemma_inline_step(es, k as int, Bucket::Border);
        }
        match &styled[k].0 {
            Some(st) => {
                extract_colors_from_style(st.as_str(), &mut p, &mut bg, &mut t, &mut bd);
            },
            None => {},
        }
        k = k + 1;
    }
    let ghost p0 = strs(p@);
    let ghost bg0 = strs(bg@);
    let ghost t0 = strs(t@);
    let ghost bd0 = strs(bd@);
    let mut j: usize = 0;
    while j < sheets.len()
        invariant
            j <= sheets@.len(),
            ss == strs(sheets@),
            strs(p@) == insert_all(p0, sheet_literals(ss.take(j as int), Bucket::Primary)),
            strs(bg@) == insert_all(bg0, sheet_literals(ss.take(j as int), Bucket::Background)),
            strs(t@) == insert_all(t0, sheet_literals(ss.take(j as int), Bucket::TextColor)),
            strs(bd@) == insert_all(bd0, sheet_literals(ss.take(j as int), Bucket::Border)),
        decreases sheets@.len() - j,
    {
        proof {
            lemma_sheet_step(ss, j as int, Bucket::Primary, p0);
            lemma_sheet_step(ss, j as int, Bucket::Background, bg0);
            lemma_sheet_step(ss, j as int, Bucket::TextColor, t0);
            lemma_sheet_step(ss, j as int, Bucket::Border, bd0);
        }
        extract_colors_from_css(sheets[j].as_str(), &mut p, &mut bg, &mut t, &mut bd);
        j = j + 1;
    }
    proof {
        lemma_whole(es, ss, Bucket::Primary);
        lemma_whole(es, ss, Bucket::Background);
        lemma_whole(es, ss, Bucket::TextColor);
        lemma_whole(es, ss, Bucket::Border);
    }
    cap_set(&mut p, 10);
    cap_set(&mut bg, 10);
    cap_set(&mut t, 10);
    cap_set(&mut bd, 10);
    ColorScheme { primary_colors: p, background_colors: bg, text_colors: t, border_colors: bd }
}

/// The typography of a page with the given styled elements (their `style`
/// and `class` attributes) and style sheets.
pub fn extract_typography(styled: &Vec<(Option<String>, Option<String>)>, sheets: &Vec<String>) -> (r:
    Typography)
    ensures
        typography_matches(r, pair_views(styled@), strs(sheets@)),
{
    let ghost es = pair_views(styled@);
    let ghost ss = strs(sheets@);
    let mut f: Vec<String> = Vec::new();
    let mut sz: Vec<String> = Vec::new();
    let mut w: Vec<String> = Vec::new();
    let mut lh: Vec<String> = Vec::new();
    let mut k: usize = 0;
    while k < styled.len()
        invariant
            k <= styled@.len(),
            es == pair_views(styled@),
            strs(f@) == insert_all(seq![], inline_literals(es.take(k as int), Bucket::FontFamily)),
            strs(sz@) == insert_all(seq![], inline_literals(es.take(k as int), Bucket::FontSize)),
            strs(w@) == insert_all(seq![], inline_literals(es.take(k as int), Bucket::FontWeight)),
            strs(lh@) == insert_all(seq![], inline_literals(es.take(k as int), Bucket::LineHeight)),
        decreases styled@.len() - k,
    {
        proof {
            lemma_inline_step(es, k as int, Bucket::FontFamily);
            lemma_inline_step(es, k as int, Bucket::FontSize);
            lemma_inline_step(es, k as int, Bucket::FontWeight);
            lemma_inline_step(es, k as int, Bucket::LineHeight);
        }
        match &styled[k].0 {
            Some(st) => {
                extract_typography_from_style(st.as_str(), &mut f, &mut sz, &mut w, &mut lh);
            },
            None => {},
        }
        k = k + 1;
    }
    let ghost f0 = strs(f@);
    let ghost sz0 = strs(sz@);
    let ghost w0 = strs(w@);
    let ghost lh0 = strs(lh@);
    let mut j: usize = 0;
    while j < sheets.len()
        invariant
            j <= sheets@.len(),
            ss == strs(sheets@),
            strs(f@) == insert_all(f0, sheet_literals(ss.take(j as int), Bucket::FontFamily)),
            strs(sz@) == insert_all(sz0, sheet_literals(ss.take(j as int), Bucket::FontSize)),
            strs(w@) == insert_all(w0, sheet_literals(ss.take(j as int), Bucket::FontWeight)),
            strs(lh@) == insert_all(lh0, sheet_literals(ss.take(j as int), Bucket::LineHeight)),
        decreases sheets@.len() - j,
    {
        proof {
            lemma_sheet_step(ss, j as int, Bucket::FontFamily, f0);
            lemma_sheet_step(ss, j as int, Bucket::FontSize, sz0);
            lemma_sheet_step(ss, j as int, Bucket::FontWeight, w0);
            lemma_sheet_step(ss, j as int, Bucket::LineHeight, lh0);
        }
        extract_typography_from_css(sheets[j].as_str(), &mut f, &mut sz, &mut w, &mut lh);
        j = j + 1;
    }
    proof {
        lemma_whole(es, ss, Bucket::FontFamily);
        lemma_whole(es, ss, Bucket::FontSize);
        lemma_whole(es, ss, Bucket::FontWeight);
        lemma_whole(es, ss, Bucket::LineHeight);
    }
    cap_set(&mut f, 10);
    cap_set(&mut sz, 15);
    cap_set(&mut w, 10);
    cap_set(&mut lh, 10);
    Typography { font_families: f, font_sizes: sz, font_weights: w, line_heights: lh }
}

/// The spacing system of a page with the given styled elements (their `style`
/// and `class` attributes) and style sheets.
pub fn extract_spacing(styled: &Vec<(Option<String>, Option<String>)>, sheets: &Vec<String>) -> (r:
    SpacingSystem)
    ensures
        spacing_matches(r, pair_views(styled@), strs(sheets@)),
{
    let ghost es = pair_views(styled@);
    let ghost ss = strs(sheets@);
    let mut m: Vec<String> = Vec::new();
    let mut pd: Vec<String> = Vec::new();
    let mut g: Vec<String> = Vec::new();
    let mut k: usize = 0;
    while k < styled.len()
        invariant
            k <= styled@.len(),
            es == pair_views(styled@),
            strs(m@) == insert_all(seq![], inline_literals(es.take(k as int), Bucket::Margin)),
            strs(pd@) == insert_all(seq![], inline_literals(es.take(k as int), Bucket::Padding)),
            strs(g@) == insert_all(seq![], inline_literals(es.take(k as int), Bucket::Gap)),
        decreases styled@.len() - k,
    {
        proof {
            lemma_inline_step(es, k as int, Bucket::Margin);
            lemma_inline_step(es, k as int, Bucket::Padding);
            lemma_inline_step(es, k as int, Bucket::Gap);
        }
        match &styled[k].0 {
            Some(st) => {
                extract_spacing_from_style(st.as_str(), &mut m, &mut pd, &mut g);
            },
            None => {},
        }
        k = k + 1;
    }
    let ghost m0 = strs(m@);
    let ghost pd0 = strs(pd@);
    let ghost g0 = strs(g@);
    let mut j: usize = 0;
    while j < sheets.len()
        invariant
            j <= sheets@.len(),
            ss == strs(sheets@),
            strs(m@) == insert_all(m0, sheet_literals(ss.take(j as int), Bucket::Margin)),
            strs(pd@) == insert_all(pd0, sheet_literals(ss.take(j as int), Bucket::Padding)),
            strs(g@) == insert_all(g0, sheet_literals(ss.take(j as int), Bucket::Gap)),
        decreases sheets@.len() - j,
    {
        proof {
            lemma_sheet_step(ss, j as int, Bucket::Margin, m0);
            lemma_sheet_step(ss, j as int, Bucket::Padding, pd0);
            lemma_sheet_step(ss, j as int, Bucket::Gap, g0);
        }
        extract_spacing_from_css(sheets[j].as_str(), &mut m, &mut pd, &mut g);
        j = j + 1;
    }
    proof {
        lemma_whole(es, ss, Bucket::Margin);
        lemma_whole(es, ss, Bucket::Padding);
        lemma_whole(es, ss, Bucket::Gap);
    }
    cap_set(&mut m, 15);
    cap_set(&mut pd, 15);
    cap_set(&mut g, 10);
    SpacingSystem { margins: m, paddings: pd, gaps: g }
}

/// Name of the component category `k`, in sampling order.
pub open spec fn category_name(k: int) -> Seq<char> {
    if k == 0 {
        "button"@
    } else if k == 1 {
        "link"@
    } else if k == 2 {
        "heading"@
    } else if k == 3 {
        "paragraph"@
    } else if k == 4 {
        "input"@
    } else if k == 5 {
        "form"@
    } else if k == 6 {
        "nav"@
    } else if k == 7 {
        "header"@
    } else {
        "footer"@
    }
}

/// Selector of the elements of component category `k`.
pub open spec fn category_selector(k: int) -> Seq<char> {
    if k == 0 {
        "button"@
    } else if k == 1 {
        "a"@
    } else if k == 2 {
        "h1, h2, h3, h4, h5, h6"@
    } else if k == 3 {
        "p"@
    } else if k == 4 {
        "input"@
    } else if k == 5 {
        "form"@
    } else if k == 6 {
        "nav"@
    } else if k == 7 {
        "header"@
    } else {
        "footer"@
    }
}

/// Number of component categories.
pub const CATEGORY_COUNT: usize = 9;

fn category(k: usize) -> (r: (&'static str, &'static str))
    requires
        k < CATEGORY_COUNT,
    ensures
        r.0@ == category_name(k as int),
        r.1@ == category_selector(k as int),
{
    if k == 0 {
        ("button", "button")
    } else if k == 1 {
        ("link", "a")
    } else if k == 2 {
        ("heading", "h1, h2, h3, h4, h5, h6")
    } else if k == 3 {
        ("paragraph", "p")
    } else if k == 4 {
        ("input", "input")
    } else if k == 5 {
        ("form", "form")
    } else if k == 6 {
        ("nav", "nav")
    } else if k == 7 {
        ("header", "header")
    } else {
        ("footer", "footer")
    }
}

/// Elements of a category: their `style` and `class` attributes.
pub open spec fn category_elements(html: Seq<char>, k: int) -> Seq<
    (Option<Seq<char>>, Option<Seq<char>>),
> {
    selected_attributes(html, category_selector(k), "style"@, "class"@)
}

/// Components of the first `k` categories of the page `html`, category by
/// category.
pub open spec fn page_components(html: Seq<char>, k: int) -> Seq<
    (Seq<char>, Seq<(Seq<char>, Seq<char>)>),
>
    decreases k,
{
    if k <= 0 {
        seq![]
    } else {
        page_components(html, k - 1) + category_samples(
            category_name(k - 1),
            category_elements(html, k - 1),
        )
    }
}

/// The sampled components of the page `html`, in category order.
pub fn extract_components(html: &str) -> (r: Vec<ComponentStyle>)
    ensures
        component_views(r@) == page_components(html@, CATEGORY_COUNT as int),
{
    let mut r: Vec<ComponentStyle> = Vec::new();
    let mut k: usize = 0;
    while k < CATEGORY_COUNT
        invariant
            k <= CATEGORY_COUNT,
            component_views(r@) == page_components(html@, k as int),
        decreases CATEGORY_COUNT - k,
    {
        let (name, selector) = category(k);
        let elems = select_attributes(html, selector, "style", "class");
        let mut found = sample_category(name, &elems);
        let ghost before = r@;
        let ghost added = found@;
        r.append(&mut found);
        assert(component_views(r@) =~= component_views(before) + component_views(added));
        k = k + 1;
    }
    r
}

/// Elements that carry a `style` attribute.
pub open spec fn styled_elements(html: Seq<char>) -> Seq<(Option<Seq<char>>, Option<Seq<char>>)> {
    selected_attributes(html, "[style]"@, "style"@, "class"@)
}

/// Texts of the page's `<style>` elements.
pub open spec fn style_sheets(html: Seq<char>) -> Seq<Seq<char>> {
    selected_texts(html, "style"@)
}

/// `g` is the style guide of the page `html` fetched from `url`.
pub open spec fn extracted(g: StyleGuide, html: Seq<char>, url: Seq<char>) -> bool {
    &&& g.url@ == url
    &&& colors_match(g.colors, styled_elements(html), style_sheets(html))
    &&& typography_matches(g.typography, styled_elements(html), style_sheets(html))
    &&& spacing_matches(g.spacing, styled_elements(html), style_sheets(html))
    &&& component_views(g.components@) == page_components(html, CATEGORY_COUNT as int)
}

/// The style guide of the page `html` fetched from `url`. Extraction itself
/// never fails: unreadable style text contributes nothing.
pub fn extract_styles(html: &str, url: &str) -> (r: Result<StyleGuide, String>)
    ensures
        r is Ok,
        extracted(r->Ok_0, html@, url@),
{
    let styled = select_attributes(html, "[style]", "style", "class");
    let sheets = select_texts(html, "style");
    let colors = extract_colors(&styled, &sheets);
    let typography = extract_typography(&styled, &sheets);
    let spacing = extract_spacing(&styled, &sheets);
    let components = extract_components(html);
    Ok(StyleGuide { url: String::from_str(url), colors, typography, spacing, components })
}

} // verus!
