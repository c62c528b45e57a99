//! The aggregate result of an extraction run and the sets it is made of.

use vstd::prelude::*;
use crate::text::{has_word, split_on, lines, char_seqs};
use crate::patterns::{color_matches, length_matches, property_value};

verus! {

/// Colors found on a page. `primary_colors` holds every color literal; the
/// other three hold those whose fragment names the matching context.
#[derive(Clone, Debug)]
pub struct ColorScheme {
    pub primary_colors: Vec<String>,
    pub background_colors: Vec<String>,
    pub text_colors: Vec<String>,
    pub border_colors: Vec<String>,
}

/// Values of the four font properties found on a page.
#[derive(Clone, Debug)]
pub struct Typography {
    pub font_families: Vec<String>,
    pub font_sizes: Vec<String>,
    pub font_weights: Vec<String>,
    pub line_heights: Vec<String>,
}

/// Length literals found in margin, padding and gap declarations.
#[derive(Clone, Debug)]
pub struct SpacingSystem {
    pub margins: Vec<String>,
    pub paddings: Vec<String>,
    pub gaps: Vec<String>,
}

/// Inline declarations and class of one sampled element, named
/// `"{category}-{rank}"`. Keys of `styles` are unique.
#[derive(Clone, Debug)]
pub struct ComponentStyle {
    pub name: String,
    pub styles: Vec<(String, String)>,
}

/// Everything extracted from one page.
#[derive(Clone, Debug)]
pub struct StyleGuide {
    pub url: String,
    pub colors: ColorScheme,
    pub typography: Typography,
    pub spacing: SpacingSystem,
    pub components: Vec<ComponentStyle>,
}

/// The eleven sets of a style guide.
pub enum Bucket {
    Primary,
    Background,
    TextColor,
    Border,
    FontFamily,
    FontSize,
    FontWeight,
    LineHeight,
    Margin,
    Padding,
    Gap,
}

/// Most entries a set keeps.
pub open spec fn bucket_cap(b: Bucket) -> nat {
    match b {
        Bucket::FontSize | Bucket::Margin | Bucket::Padding => 15,
        _ => 10,
    }
}

pub open spec fn strs(v: Seq<String>) -> Seq<Seq<char>> {
    v.map_values(|s: String| s@)
}

pub open spec fn opt_seq(o: Option<Seq<char>>) -> Seq<Seq<char>> {
    match o {
        Some(v) => seq![v],
        None => seq![],
    }
}

/// Color literals of `frag` when `cond` holds, else none.
pub open spec fn colors_if(frag: Seq<char>, cond: bool) -> Seq<Seq<char>> {
    if cond {
        color_matches(frag)
    } else {
        seq![]
    }
}

/// Length literals of `frag` when it names `word`, else none.
pub open spec fn lengths_if(frag: Seq<char>, word: Seq<char>) -> Seq<Seq<char>> {
    if has_word(frag, word) {
        length_matches(frag)
    } else {
        seq![]
    }
}

/// The literals that one fragment contributes to a set, in order. Colors are
/// classified by the words of the whole fragment.
pub open spec fn literals_in(frag: Seq<char>, b: Bucket) -> Seq<Seq<char>> {
    match b {
        Bucket::Primary => color_matches(frag),
        Bucket::Background => colors_if(frag, has_word(frag, "background"@)),
        Bucket::TextColor => colors_if(
            frag,
            has_word(frag, "color"@) && !has_word(frag, "background"@),
        ),
        Bucket::Border => colors_if(frag, has_word(frag, "border"@)),
        Bucket::FontFamily => opt_seq(property_value(frag, "font-family"@)),
        Bucket::FontSize => opt_seq(property_value(frag, "font-size"@)),
        Bucket::FontWeight => opt_seq(property_value(frag, "font-weight"@)),
        Bucket::LineHeight => opt_seq(property_value(frag, "line-height"@)),
        Bucket::Margin => lengths_if(frag, "margin"@),
        Bucket::Padding => lengths_if(frag, "padding"@),
        Bucket::Gap => lengths_if(frag, "gap"@),
    }
}

/// The literals of several fragments, one after another.
pub open spec fn gather(frags: Seq<Seq<char>>, b: Bucket) -> Seq<Seq<char>>
    decreases frags.len(),
{
    if frags.len() == 0 {
        seq![]
    } else {
        gather(frags.drop_last(), b) + literals_in(frags.last(), b)
    }
}

pub open spec fn is_spacing(b: Bucket) -> bool {
    b is Margin || b is Padding || b is Gap
}

/// Literals of an inline `style` attribute: spacing is read per `;`-separated
/// declaration, everything else over the whole attribute.
pub open spec fn style_literals(style: Seq<char>, b: Bucket) -> Seq<Seq<char>> {
    if is_spacing(b) {
        gather(split_on(style, ';'), b)
    } else {
        literals_in(style, b)
    }
}

/// Literals of a style sheet, read line by line.
pub open spec fn css_literals(css: Seq<char>, b: Bucket) -> Seq<Seq<char>> {
    gather(lines(css), b)
}

/// `s` with `x` added at the end unless already there.
pub open spec fn insert_lit(s: Seq<Seq<char>>, x: Seq<char>) -> Seq<Seq<char>> {
    if s.contains(x) {
        s
    } else {
        s.push(x)
    }
}

/// `s` with each of `xs` added in turn.
pub open spec fn insert_all(s: Seq<Seq<char>>, xs: Seq<Seq<char>>) -> Seq<Seq<char>>
    decreases xs.len(),
{
    if xs.len() == 0 {
        s
    } else {
        insert_lit(insert_all(s, xs.drop_last()), xs.last())
    }
}

pub proof fn lemma_insert_all_concat(s: Seq<Seq<char>>, a: Seq<Seq<char>>, c: Seq<Seq<char>>)
    ensures
        insert_all(s, a + c) == insert_all(insert_all(s, a), c),
    decreases c.len(),
{
    if c.len() == 0 {
        assert(a + c =~= a);
    } else {
        assert((a + c).drop_last() =~= a + c.drop_last());
        lemma_insert_all_concat(s, a, c.drop_last());
    }
}

pub proof fn lemma_insert_all_contents(s: Seq<Seq<char>>, xs: Seq<Seq<char>>)
    requires
        s.no_duplicates(),
    ensures
        insert_all(s, xs).no_duplicates(),
        forall|x: Seq<char>| #[trigger]
            insert_all(s, xs).contains(x) <==> s.contains(x) || xs.contains(x),
    decreases xs.len(),
{
    if xs.len() > 0 {
        let prev = insert_all(s, xs.drop_last());
        lemma_insert_all_contents(s, xs.drop_last());
        assert forall|x: Seq<char>| #[trigger] xs.contains(x) <==> xs.drop_last().contains(x) || x
            == xs.last() by {
            if xs.contains(x) {
                let i = choose|i: int| 0 <= i < xs.len() && xs[i] == x;
                if i < xs.len() - 1 {
                    assert(xs.drop_last()[i] == x);
                }
            }
            if xs.drop_last().contains(x) {
                let i = choose|i: int| 0 <= i < xs.len() - 1 && xs.drop_last()[i] == x;
                assert(xs[i] == x);
            }
            if x == xs.last() {
                assert(xs[xs.len() - 1] == x);
            }
        }
        if !prev.contains(xs.last()) {
            assert forall|x: Seq<char>| #[trigger]
                prev.push(xs.last()).contains(x) <==> prev.contains(x) || x == xs.last() by {
                if prev.push(xs.last()).contains(x) {
                    let i = choose|i: int| 0 <= i < prev.len() + 1 && prev.push(xs.last())[i] == x;
                    if i < prev.len() {
                        assert(prev[i] == x);
                    }
                }
                if prev.contains(x) {
                    let i = choose|i: int| 0 <= i < prev.len() && prev[i] == x;
                    assert(prev.push(xs.last())[i] == x);
                }
                if x == xs.last() {
                    assert(prev.push(xs.last())[prev.len() as int] == x);
                }
            }
            assert(prev.push(xs.last()).no_duplicates()) by {
                assert forall|i: int, j: int|
                    0 <= i < prev.len() + 1 && 0 <= j < prev.len() + 1 && i != j implies prev.push(
                    xs.last())[i] != prev.push(xs.last())[j] by {
                    if i == prev.len() {
                        assert(prev[j] != xs.last());
                    } else if j == prev.len() {
                        assert(prev[i] != xs.last());
                    }
                }
            }
        }
    }
}

} // verus!
