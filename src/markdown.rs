//! Rendering a style guide as a Markdown report with fixed sections.

use vstd::prelude::*;
use crate::model::{StyleGuide, strs};
use crate::components::{component_views, entry_views};

verus! {

/// One bullet per item, each wrapped in a code span.
pub open spec fn bullets(items: Seq<Seq<char>>) -> Seq<char>
    decreases items.len(),
{
    if items.len() == 0 {
        seq![]
    } else {
        bullets(items.drop_last()) + "- `"@ + items.last() + "`\n"@
    }
}

/// A `###` subsection listing `items`, or saying that no `what` was found.
pub open spec fn subsection(title: Seq<char>, what: Seq<char>, items: Seq<Seq<char>>) -> Seq<char> {
    "### "@ + title + "\n"@ + (if items.len() == 0 {
        "- No "@ + what + " detected\n"@
    } else {
        bullets(items)
    }) + "\n"@
}

/// One `**key**: value` bullet per style entry.
pub open spec fn entry_lines(m: Seq<(Seq<char>, Seq<char>)>) -> Seq<char>
    decreases m.len(),
{
    if m.len() == 0 {
        seq![]
    } else {
        entry_lines(m.drop_last()) + "- **"@ + m.last().0 + "**: `"@ + m.last().1 + "`\n"@
    }
}

/// A heading per component followed by its style entries.
pub open spec fn component_blocks(cs: Seq<(Seq<char>, Seq<(Seq<char>, Seq<char>)>)>) -> Seq<char>
    decreases cs.len(),
{
    if cs.len() == 0 {
        seq![]
    } else {
        component_blocks(cs.drop_last()) + "### "@ + cs.last().0 + "\n"@ + entry_lines(cs.last().1)
            + "\n"@
    }
}

/// The report on `g`, generated at the time `stamp`.
pub open spec fn markdown_of(g: StyleGuide, stamp: Seq<char>) -> Seq<char> {
    let cs = component_views(g.components@);
    "# Style Guide for "@ + g.url@ + "\n\n"@ + "Generated on: "@ + stamp + "\n\n"@
        + "## Color Scheme\n\n"@
        + subsection("Primary Colors"@, "primary colors"@, strs(g.colors.primary_colors@))
        + subsection("Background Colors"@, "background colors"@, strs(g.colors.background_colors@))
        + subsection("Text Colors"@, "text colors"@, strs(g.colors.text_colors@))
        + subsection("Border Colors"@, "border colors"@, strs(g.colors.border_colors@))
        + "## Typography\n\n"@
        + subsection("Font Families"@, "font families"@, strs(g.typography.font_families@))
        + subsection("Font Sizes"@, "font sizes"@, strs(g.typography.font_sizes@))
        + subsection("Font Weights"@, "font weights"@, strs(g.typography.font_weights@))
        + subsection("Line Heights"@, "line heights"@, strs(g.typography.line_heights@))
        + "## Spacing System\n\n"@
        + subsection("Margins"@, "margins"@, strs(g.spacing.margins@))
        + subsection("Paddings"@, "paddings"@, strs(g.spacing.paddings@))
        + subsection("Gaps"@, "gaps"@, strs(g.spacing.gaps@))
        + "## Component Styles\n\n"@
        + (if cs.len() == 0 {
        "No component styles detected\n"@
    } else {
        component_blocks(cs)
    })
}

fn push_subsection(md: &mut String, title: &str, what: &str, items: &Vec<String>)
    ensures
        final(md)@ == old(md)@ + subsection(title@, what@, strs(items@)),
{
    let ghost base = md@;
    md.append("### ");
    md.append(title);
    md.append("\n");
    let ghost head = md@;
    if items.len() == 0 {
        md.append("- No ");
        md.append(what);
        md.append(" detected\n");
    } else {
        let ghost xs = strs(items@);
        let mut k: usize = 0;
        while k < items.len()
            invariant
                k <= items@.len(),
                xs == strs(items@),
                md@ == head + bullets(xs.take(k as int)),
            decreases items@.len() - k,
        {
            assert(xs.take(k + 1).drop_last() =~= xs.take(k as int));
            md.append("- `");
            md.append(items[k].as_str());
            md.append("`\n");
            k = k + 1;
        }
        assert(xs.take(k as int) =~= xs);
    }
    md.append("\n");
    assert(md@ =~= base + subsection(title@, what@, strs(items@)));
}

fn push_components(md: &mut String, g: &StyleGuide)
    ensures
        final(md)@ == old(md)@ + component_blocks(component_views(g.components@)),
{
    let ghost base = md@;
    let ghost cs = component_views(g.components@);
    let mut k: usize = 0;
    while k < g.components.len()
        invariant
            k <= g.components@.len(),
            cs == component_views(g.components@),
            md@ == base + component_blocks(cs.take(k as int)),
        decreases g.components@.len() - k,
    {
        let c = &g.components[k];
        assert(cs.take(k + 1).drop_last() =~= cs.take(k as int));
        let ghost es = entry_views(c.styles@);
        md.append("### ");
        md.append(c.name.as_str());
        md.append("\n");
        let ghost head = md@;
        let mut j: usize = 0;
        while j < c.styles.len()
            invariant
                j <= c.styles@.len(),
                es == entry_views(c.styles@),
                md@ == head + entry_lines(es.take(j as int)),
            decreases c.styles@.len() - j,
        {
            assert(es.take(j + 1).drop_last() =~= es.take(j as int));
            md.append("- **");
            md.append(c.styles[j].0.as_str());
            md.append("**: `");
            md.append(c.styles[j].1.as_str());
            md.append("`\n");
            j = j + 1;
        }
        assert(es.take(j as int) =~= es);
        md.append("\n");
        k = k + 1;
        assert(md@ =~= base + component_blocks(cs.take(k as int)));
    }
    assert(cs.take(k as int) =~= cs);
}

/// The report on `guide`, with `stamp` as its generation time.
pub fn render_markdown(guide: &StyleGuide, stamp: &str) -> (r: String)
    ensures
        r@ == markdown_of(*guide, stamp@),
{
    let mut md = String::from_str("# Style Guide for ");
    md.append(guide.url.as_str());
    md.append("\n\n");
    md.append("Generated on: ");
    md.append(stamp);
    md.append("\n\n");
    md.append("## Color Scheme\n\n");
    push_subsection(&mut md, "Primary Colors", "primary colors", &guide.colors.primary_colors);
    push_subsection(&mut md, "Background Colors", "background colors", &guide.colors.background_colors);
    push_subsection(&mut md, "Text Colors", "text colors", &guide.colors.text_colors);
    push_subsection(&mut md, "Border Colors", "border colors", &guide.colors.border_colors);
    md.append("## Typography\n\n");
    push_subsection(&mut md, "Font Families", "font families", &guide.typography.font_families);
    push_subsection(&mut md, "Font Sizes", "font sizes", &guide.typography.font_sizes);
    push_subsection(&mut md, "Font Weights", "font weights", &guide.typography.font_weights);
    push_subsection(&mut md, "Line Heights", "line heights", &guide.typography.line_heights);
    md.append("## Spacing System\n\n");
    push_subsection(&mut md, "Margins", "margins", &guide.spacing.margins);
    push_subsection(&mut md, "Paddings", "paddings", &guide.spacing.paddings);
    push_subsection(&mut md, "Gaps", "gaps", &guide.spacing.gaps);
    md.append("## Component Styles\n\n");
    if guide.components.len() == 0 {
        md.append("No component styles detected\n");
    } else {
        push_components(&mut md, guide);
    }
    md
}

/// Relies on chrono's `Local::now` and `DateTime::format`: the current local
/// time written with the strftime-style `pattern`. Nothing is promised of its
/// value. Only a pattern of known specifiers is admitted: `to_string` panics
/// when formatting meets an unknown one.
#[verifier::external_body]
fn local_time_now(pattern: &str) -> (r: String)
    requires
        pattern@ == "%Y-%m-%d %H:%M:%S"@,
{
    chrono::Local::now().format(pattern).to_string()
}

/// The report on `guide`, stamped with the current local time.
pub fn generate_markdown(guide: &StyleGuide) -> (r: String)
    ensures
        exists|stamp: Seq<char>| r@ == #[trigger] markdown_of(*guide, stamp),
{
    let stamp = local_time_now("%Y-%m-%d %H:%M:%S");
    let r = render_markdown(guide, stamp.as_str());
    assert(r@ == markdown_of(*guide, stamp@));
    r
}

} // verus!
