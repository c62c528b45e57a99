//! Properties that hold of every extraction and every report.

use vstd::prelude::*;
use crate::text::has_word;
use crate::patterns::color_matches;
use crate::model::{Bucket, StyleGuide, bucket_cap, insert_all, lemma_insert_all_contents, literals_in, strs};
use crate::components::{category_samples, component_name, component_views, declarations, element_styles, key_index, put, rank_digit, sampled, sample_limit};
use crate::guide::{bucket_set, category_elements, category_name, extracted, page_components};
use crate::markdown::{markdown_of, subsection};

verus! {

/// Colors are classified by the words of the whole fragment: in a fragment
/// that names `background` every color goes to the background set and none
/// to the text-color set, even one declared for `color`; all go to primary.
pub proof fn lemma_background_fragment_classification(frag: Seq<char>)
    requires
        has_word(frag, "background"@),
    ensures
        literals_in(frag, Bucket::TextColor) == Seq::<Seq<char>>::empty(),
        literals_in(frag, Bucket::Background) == color_matches(frag),
        literals_in(frag, Bucket::Primary) == color_matches(frag),
{
}

/// Every set of an extraction holds at most its cap of entries, and no
/// literal twice.
pub proof fn lemma_sets_bounded_and_distinct(
    styled: Seq<(Option<Seq<char>>, Option<Seq<char>>)>,
    sheets: Seq<Seq<char>>,
    b: Bucket,
)
    ensures
        bucket_set(styled, sheets, b).len() <= bucket_cap(b),
        bucket_set(styled, sheets, b).no_duplicates(),
{
    let all = insert_all(
        seq![],
        crate::guide::inline_literals(styled, b) + crate::guide::sheet_literals(sheets, b),
    );
    lemma_insert_all_contents(
        seq![],
        crate::guide::inline_literals(styled, b) + crate::guide::sheet_literals(sheets, b),
    );
    if all.len() > bucket_cap(b) {
        let t = all.take(bucket_cap(b) as int);
        assert forall|i: int, j: int| 0 <= i < t.len() && 0 <= j < t.len() && i != j implies t[i]
            != t[j] by {
            assert(t[i] == all[i] && t[j] == all[j]);
        }
    }
}

/// Extracting twice from the same markup and URL gives the same sets and
/// the same components.
pub proof fn lemma_extraction_repeatable(g1: StyleGuide, g2: StyleGuide, html: Seq<char>, url: Seq<char>)
    requires
        extracted(g1, html, url),
        extracted(g2, html, url),
    ensures
        g1.url@ == g2.url@,
        strs(g1.colors.primary_colors@) == strs(g2.colors.primary_colors@),
        strs(g1.colors.background_colors@) == strs(g2.colors.background_colors@),
        strs(g1.colors.text_colors@) == strs(g2.colors.text_colors@),
        strs(g1.colors.border_colors@) == strs(g2.colors.border_colors@),
        strs(g1.typography.font_families@) == strs(g2.typography.font_families@),
        strs(g1.typography.font_sizes@) == strs(g2.typography.font_sizes@),
        strs(g1.typography.font_weights@) == strs(g2.typography.font_weights@),
        strs(g1.typography.line_heights@) == strs(g2.typography.line_heights@),
        strs(g1.spacing.margins@) == strs(g2.spacing.margins@),
        strs(g1.spacing.paddings@) == strs(g2.spacing.paddings@),
        strs(g1.spacing.gaps@) == strs(g2.spacing.gaps@),
        component_views(g1.components@) == component_views(g2.components@),
{
}

/// A style guide with every set empty and no components.
pub open spec fn is_empty_guide(g: StyleGuide) -> bool {
    &&& g.colors.primary_colors@.len() == 0
    &&& g.colors.background_colors@.len() == 0
    &&& g.colors.text_colors@.len() == 0
    &&& g.colors.border_colors@.len() == 0
    &&& g.typography.font_families@.len() == 0
    &&& g.typography.font_sizes@.len() == 0
    &&& g.typography.font_weights@.len() == 0
    &&& g.typography.line_heights@.len() == 0
    &&& g.spacing.margins@.len() == 0
    &&& g.spacing.paddings@.len() == 0
    &&& g.spacing.gaps@.len() == 0
    &&& g.components@.len() == 0
}

/// A subsection that found nothing: its heading and its placeholder line.
pub open spec fn placeholder(title: Seq<char>, what: Seq<char>) -> Seq<char> {
    "### "@ + title + "\n"@ + "- No "@ + what + " detected\n"@ + "\n"@
}

/// The report on an empty style guide shows the placeholder line of every
/// subsection and no bullet of any value.
pub proof fn lemma_empty_guide_report(g: StyleGuide, stamp: Seq<char>)
    requires
        is_empty_guide(g),
    ensures
        markdown_of(g, stamp) == "# Style Guide for "@ + g.url@ + "\n\n"@ + "Generated on: "@ + stamp + "\n\n"@
            + "## Color Scheme\n\n"@
            + placeholder("Primary Colors"@, "primary colors"@)
            + placeholder("Background Colors"@, "background colors"@)
            + placeholder("Text Colors"@, "text colors"@)
            + placeholder("Border Colors"@, "border colors"@)
            + "## Typography\n\n"@
            + placeholder("Font Families"@, "font families"@)
            + placeholder("Font Sizes"@, "font sizes"@)
            + placeholder("Font Weights"@, "font weights"@)
            + placeholder("Line Heights"@, "line heights"@)
            + "## Spacing System\n\n"@
            + placeholder("Margins"@, "margins"@)
            + placeholder("Paddings"@, "paddings"@)
            + placeholder("Gaps"@, "gaps"@)
            + "## Component Styles\n\n"@ + "No component styles detected\n"@,
{
    assert(component_views(g.components@).len() == 0);
    assert(strs(g.colors.primary_colors@) =~= Seq::<Seq<char>>::empty());
    assert(strs(g.colors.background_colors@) =~= Seq::<Seq<char>>::empty());
    assert(strs(g.colors.text_colors@) =~= Seq::<Seq<char>>::empty());
    assert(strs(g.colors.border_colors@) =~= Seq::<Seq<char>>::empty());
    assert(strs(g.typography.font_families@) =~= Seq::<Seq<char>>::empty());
    assert(strs(g.typography.font_sizes@) =~= Seq::<Seq<char>>::empty());
    assert(strs(g.typography.font_weights@) =~= Seq::<Seq<char>>::empty());
    assert(strs(g.typography.line_heights@) =~= Seq::<Seq<char>>::empty());
    assert(strs(g.spacing.margins@) =~= Seq::<Seq<char>>::empty());
    assert(strs(g.spacing.paddings@) =~= Seq::<Seq<char>>::empty());
    assert(strs(g.spacing.gaps@) =~= Seq::<Seq<char>>::empty());
    assert(subsection("Primary Colors"@, "primary colors"@, Seq::<Seq<char>>::empty()) =~= placeholder("Primary Colors"@, "primary colors"@));
    assert(subsection("Background Colors"@, "background colors"@, Seq::<Seq<char>>::empty()) =~= placeholder("Background Colors"@, "background colors"@));
    assert(subsection("Text Colors"@, "text colors"@, Seq::<Seq<char>>::empty()) =~= placeholder("Text Colors"@, "text colors"@));
    assert(subsection("Border Colors"@, "border colors"@, Seq::<Seq<char>>::empty()) =~= placeholder("Border Colors"@, "border colors"@));
    assert(subsection("Font Families"@, "font families"@, Seq::<Seq<char>>::empty()) =~= placeholder("Font Families"@, "font families"@));
    assert(subsection("Font Sizes"@, "font sizes"@, Seq::<Seq<char>>::empty()) =~= placeholder("Font Sizes"@, "font sizes"@));
    assert(subsection("Font Weights"@, "font weights"@, Seq::<Seq<char>>::empty()) =~= placeholder("Font Weights"@, "font weights"@));
    assert(subsection("Line Heights"@, "line heights"@, Seq::<Seq<char>>::empty()) =~= placeholder("Line Heights"@, "line heights"@));
    assert(subsection("Margins"@, "margins"@, Seq::<Seq<char>>::empty()) =~= placeholder("Margins"@, "margins"@));
    assert(subsection("Paddings"@, "paddings"@, Seq::<Seq<char>>::empty()) =~= placeholder("Paddings"@, "paddings"@));
    assert(subsection("Gaps"@, "gaps"@, Seq::<Seq<char>>::empty()) =~= placeholder("Gaps"@, "gaps"@));
}

proof fn lemma_sampled_bounded(
    category: Seq<char>,
    elems: Seq<(Option<Seq<char>>, Option<Seq<char>>)>,
    n: int,
)
    requires
        0 <= n <= elems.len(),
    ensures
        sampled(category, elems, n).len() <= n,
        forall|i: int|
            0 <= i < sampled(category, elems, n).len() ==> #[trigger] sampled(category, elems, n)[i].1.len()
                > 0,
    decreases n,
{
    if n > 0 {
        lemma_sampled_bounded(category, elems, n - 1);
    }
}

/// A category yields at most three components, and only elements with some
/// declaration or a class yield one: no component has an empty mapping.
pub proof fn lemma_category_samples_bounded(
    category: Seq<char>,
    elems: Seq<(Option<Seq<char>>, Option<Seq<char>>)>,
)
    ensures
        category_samples(category, elems).len() <= 3,
        forall|i: int|
            0 <= i < category_samples(category, elems).len() ==> #[trigger] category_samples(
                category,
                elems,
            )[i].1.len() > 0,
{
    lemma_sampled_bounded(category, elems, sample_limit(elems.len() as int));
}

/// No two entries of `m` share a key.
pub open spec fn keys_unique(m: Seq<(Seq<char>, Seq<char>)>) -> bool {
    forall|i: int, j: int| 0 <= i < m.len() && 0 <= j < m.len() && i != j ==> m[i].0 != m[j].0
}

proof fn lemma_key_index(m: Seq<(Seq<char>, Seq<char>)>, k: Seq<char>, i: int)
    requires
        0 <= i <= m.len(),
    ensures
        key_index(m, k, i) == -1 ==> forall|j: int| i <= j < m.len() ==> m[j].0 != k,
        key_index(m, k, i) != -1 ==> i <= key_index(m, k, i) < m.len() && m[key_index(m, k, i)].0
            == k,
    decreases m.len() - i,
{
    if i < m.len() && m[i].0 != k {
        lemma_key_index(m, k, i + 1);
    }
}

proof fn lemma_put_unique(m: Seq<(Seq<char>, Seq<char>)>, k: Seq<char>, v: Seq<char>)
    requires
        keys_unique(m),
    ensures
        keys_unique(put(m, k, v)),
{
    lemma_key_index(m, k, 0);
}

proof fn lemma_declarations_unique(pieces: Seq<Seq<char>>)
    ensures
        keys_unique(declarations(pieces)),
    decreases pieces.len(),
{
    if pieces.len() > 0 {
        lemma_declarations_unique(pieces.drop_last());
        let m = declarations(pieces.drop_last());
        let p = pieces.last();
        let c = crate::components::char_index(p, ':', 0);
        if c >= 0 {
            lemma_put_unique(m, crate::text::trim(p.subrange(0, c)), crate::text::trim(p.subrange(c + 1, p.len() as int)));
        }
    }
}

/// The style mapping of an element has each key at most once, `class`
/// included.
pub proof fn lemma_element_styles_unique_keys(e: (Option<Seq<char>>, Option<Seq<char>>))
    ensures
        keys_unique(element_styles(e)),
{
    let m = match e.0 {
        Some(st) => declarations(crate::text::split_on(st, ';')),
        None => seq![],
    };
    match e.0 {
        Some(st) => lemma_declarations_unique(crate::text::split_on(st, ';')),
        None => {},
    }
    match e.1 {
        Some(c) => lemma_put_unique(m, "class"@, c),
        None => {},
    }
}

proof fn lemma_sampled_shape(
    category: Seq<char>,
    elems: Seq<(Option<Seq<char>>, Option<Seq<char>>)>,
    n: int,
)
    requires
        0 <= n <= elems.len(),
        n <= 3,
    ensures
        forall|i: int|
            0 <= i < sampled(category, elems, n).len() ==> exists|r: int|
                1 <= r <= n && #[trigger] sampled(category, elems, n)[i] == (
                    component_name(category, r),
                    element_styles(elems[r - 1]),
                ),
        forall|r: int, i: int|
            #![trigger sampled(category, elems, n)[i], component_name(category, r)]
            1 <= r <= n && element_styles(elems[r - 1]).len() == 0 && 0 <= i < sampled(
                category,
                elems,
                n,
            ).len() ==> sampled(category, elems, n)[i].0 != component_name(category, r),
        forall|i: int|
            0 <= i < sampled(category, elems, n).len() ==> keys_unique(
                #[trigger] sampled(category, elems, n)[i].1,
            ),
    decreases n,
{
    if n > 0 {
        lemma_sampled_shape(category, elems, n - 1);
        let prev = sampled(category, elems, n - 1);
        let cur = sampled(category, elems, n);
        lemma_element_styles_unique_keys(elems[n - 1]);
        assert forall|r: int| 1 <= r < n implies component_name(category, r) != component_name(
            category,
            n,
        ) by {
            let a = component_name(category, r);
            let b = component_name(category, n);
            assert(a[a.len() - 1] == rank_digit(r));
            assert(b[b.len() - 1] == rank_digit(n));
        }
        assert forall|i: int| 0 <= i < cur.len() implies exists|r: int|
            1 <= r <= n && #[trigger] cur[i] == (
                component_name(category, r),
                element_styles(elems[r - 1]),
            ) by {
            if i < prev.len() {
                assert(cur[i] == prev[i]);
                let r = choose|r: int|
                    1 <= r <= n - 1 && #[trigger] prev[i] == (
                        component_name(category, r),
                        element_styles(elems[r - 1]),
                    );
                assert(cur[i] == (component_name(category, r), element_styles(elems[r - 1])));
            } else {
                assert(cur[i] == (component_name(category, n), element_styles(elems[n - 1])));
            }
        }
        assert forall|r: int, i: int|
            #![trigger cur[i], component_name(category, r)]
            1 <= r <= n && element_styles(elems[r - 1]).len() == 0 && 0 <= i < cur.len() implies cur[i].0
            != component_name(category, r) by {
            if i < prev.len() {
                assert(cur[i] == prev[i]);
                if r == n {
                    let q = choose|q: int|
                        1 <= q <= n - 1 && #[trigger] prev[i] == (
                            component_name(category, q),
                            element_styles(elems[q - 1]),
                        );
                }
            }
        }
        assert forall|i: int| 0 <= i < cur.len() implies keys_unique(#[trigger] cur[i].1) by {
            if i < prev.len() {
                assert(cur[i] == prev[i]);
            }
        }
    }
}

/// Each component of a category is named `"{category}-{r}"` for a rank `r`
/// from 1 to 3 and carries the mapping of the `r`-th element; an element
/// among the first three whose mapping is empty gives no component under its
/// name; every mapping has unique keys.
pub proof fn lemma_category_samples_shape(
    category: Seq<char>,
    elems: Seq<(Option<Seq<char>>, Option<Seq<char>>)>,
)
    ensures
        forall|i: int|
            0 <= i < category_samples(category, elems).len() ==> exists|r: int|
                1 <= r <= 3 && r <= elems.len() && #[trigger] category_samples(category, elems)[i] == (
                    component_name(category, r),
                    element_styles(elems[r - 1]),
                ),
        forall|r: int, i: int|
            #![trigger category_samples(category, elems)[i], component_name(category, r)]
            1 <= r <= 3 && r <= elems.len() && element_styles(elems[r - 1]).len() == 0 && 0 <= i
                < category_samples(category, elems).len() ==> category_samples(
                category,
                elems,
            )[i].0 != component_name(category, r),
        forall|i: int|
            0 <= i < category_samples(category, elems).len() ==> keys_unique(
                #[trigger] category_samples(category, elems)[i].1,
            ),
{
    lemma_sampled_shape(category, elems, sample_limit(elems.len() as int));
}

/// A page yields at most three components per category, each named
/// `"{category}-{r}"` with `r` from 1 to 3, each with a non-empty mapping.
pub proof fn lemma_page_components_shape(html: Seq<char>, k: int)
    requires
        0 <= k,
    ensures
        page_components(html, k).len() <= 3 * k,
        forall|i: int|
            0 <= i < page_components(html, k).len() ==> exists|c: int, r: int|
                0 <= c < k && 1 <= r <= 3 && (#[trigger] page_components(html, k)[i]).0
                    == component_name(category_name(c), r) && page_components(html, k)[i].1.len() > 0,
    decreases k,
{
    if k > 0 {
        lemma_page_components_shape(html, k - 1);
        let prev = page_components(html, k - 1);
        let cs = category_samples(category_name(k - 1), category_elements(html, k - 1));
        let cur = page_components(html, k);
        lemma_category_samples_bounded(category_name(k - 1), category_elements(html, k - 1));
        lemma_category_samples_shape(category_name(k - 1), category_elements(html, k - 1));
        assert forall|i: int| 0 <= i < cur.len() implies exists|c: int, r: int|
            0 <= c < k && 1 <= r <= 3 && (#[trigger] cur[i]).0 == component_name(category_name(c), r)
                && cur[i].1.len() > 0 by {
            if i < prev.len() {
                assert(cur[i] == prev[i]);
                let (c, r) = choose|c: int, r: int|
                    0 <= c < k - 1 && 1 <= r <= 3 && (#[trigger] prev[i]).0 == component_name(
                        category_name(c),
                        r,
                    ) && prev[i].1.len() > 0;
                assert(cur[i].0 == component_name(category_name(c), r));
            } else {
                let j = i - prev.len();
                assert(cur[i] == cs[j]);
                assert(cs[j].1.len() > 0);
                let r = choose|r: int|
                    1 <= r <= 3 && r <= category_elements(html, k - 1).len() && cs[j] == (
                        #[trigger] component_name(category_name(k - 1), r),
                        element_styles(category_elements(html, k - 1)[r - 1]),
                    );
                assert(cur[i].0 == component_name(category_name(k - 1), r));
            }
        }
    }
}

} // verus!
