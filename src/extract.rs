//! The color, typography and spacing passes over single fragments, inline
//! `style` attributes and style sheets.

use vstd::prelude::*;
use crate::text::{char_seqs, chars_of, contains_word, lines, split_chars, split_lines, string_of};
use crate::patterns::{color_literals, length_literals, property_lookup, property_value};
use crate::model::{Bucket, css_literals, gather, insert_all, insert_lit, lemma_insert_all_concat, literals_in, opt_seq, strs, style_literals};

verus! {

/// Adds `lit` to `set` unless an equal string is there already.
pub fn insert_literal(set: &mut Vec<String>, lit: &Vec<char>)
    ensures
        strs(final(set)@) == insert_lit(strs(old(set)@), lit@),
{
    let s = string_of(lit);
    let mut k: usize = 0;
    while k < set.len()
        invariant
            k <= set@.len(),
            s@ == lit@,
            set@ == old(set)@,
            forall|t: int| 0 <= t < k ==> set@[t]@ != lit@,
        decreases set@.len() - k,
    {
        if set[k] == s {
            assert(strs(set@)[k as int] == lit@);
            return;
        }
        k = k + 1;
    }
    assert(!strs(set@).contains(lit@));
    assert(strs(set@.push(s)) =~= strs(set@).push(lit@));
    set.push(s);
}

/// Adds each of `lits` to `set` in turn.
pub fn insert_literals(set: &mut Vec<String>, lits: &Vec<Vec<char>>)
    ensures
        strs(final(set)@) == insert_all(strs(old(set)@), char_seqs(lits@)),
{
    let mut k: usize = 0;
    while k < lits.len()
        invariant
            k <= lits@.len(),
            strs(set@) == insert_all(strs(old(set)@), char_seqs(lits@).take(k as int)),
        decreases lits@.len() - k,
    {
        assert(char_seqs(lits@).take(k + 1).drop_last() =~= char_seqs(lits@).take(k as int));
        insert_literal(set, &lits[k]);
        k = k + 1;
    }
    assert(char_seqs(lits@).take(k as int) =~= char_seqs(lits@));
}

proof fn lemma_gather_step(frags: Seq<Seq<char>>, k: int, b: Bucket, init: Seq<Seq<char>>)
    requires
        0 <= k < frags.len(),
    ensures
        insert_all(init, gather(frags.take(k + 1), b)) == insert_all(
            insert_all(init, gather(frags.take(k), b)),
            literals_in(frags[k], b),
        ),
{
    assert(frags.take(k + 1).drop_last() =~= frags.take(k));
    lemma_insert_all_concat(init, gather(frags.take(k), b), literals_in(frags[k], b));
}

proof fn lemma_insert_one(s: Seq<Seq<char>>, v: Seq<char>)
    ensures
        insert_all(s, seq![v]) == insert_lit(s, v),
{
    assert(seq![v].drop_last() =~= Seq::<Seq<char>>::empty());
    assert(seq![v].last() == v);
    assert(insert_all(s, Seq::<Seq<char>>::empty()) == s);
}

/// Adds the colors of one fragment to the four color sets.
fn colors_into(
    frag: &Vec<char>,
    primary: &mut Vec<String>,
    background: &mut Vec<String>,
    text: &mut Vec<String>,
    border: &mut Vec<String>,
)
    ensures
        strs(final(primary)@) == insert_all(strs(old(primary)@), literals_in(frag@, Bucket::Primary)),
        strs(final(background)@) == insert_all(strs(old(background)@), literals_in(frag@, Bucket::Background)),
        strs(final(text)@) == insert_all(strs(old(text)@), literals_in(frag@, Bucket::TextColor)),
        strs(final(border)@) == insert_all(strs(old(border)@), literals_in(frag@, Bucket::Border)),
{
    let lits = color_literals(frag);
    let has_background = contains_word(frag, "background");
    let has_color = contains_word(frag, "color");
    let has_border = contains_word(frag, "border");
    if has_background {
        insert_literals(background, &lits);
    }
    if has_color && !has_background {
        insert_literals(text, &lits);
    }
    if has_border {
        insert_literals(border, &lits);
    }
    insert_literals(primary, &lits);
}

/// Adds the colors of an inline `style` attribute to the four color sets:
/// every color goes to `primary`; to `background` when the attribute names
/// `background`; to `text` when it names `color` but not `background`; to
/// `border` when it names `border`.
pub fn extract_colors_from_style(
    style: &str,
    primary: &mut Vec<String>,
    background: &mut Vec<String>,
    text: &mut Vec<String>,
    border: &mut Vec<String>,
)
    ensures
        strs(final(primary)@) == insert_all(strs(old(primary)@), style_literals(style@, Bucket::Primary)),
        strs(final(background)@) == insert_all(strs(old(background)@), style_literals(style@, Bucket::Background)),
        strs(final(text)@) == insert_all(strs(old(text)@), style_literals(style@, Bucket::TextColor)),
        strs(final(border)@) == insert_all(strs(old(border)@), style_literals(style@, Bucket::Border)),
{
    let frag = chars_of(style);
    colors_into(&frag, primary, background, text, border);
}

/// Adds the colors of a style sheet to the four color sets, each line
/// classified on its own as in `extract_colors_from_style`.
pub fn extract_colors_from_css(
    css: &str,
    primary: &mut Vec<String>,
    background: &mut Vec<String>,
    text: &mut Vec<String>,
    border: &mut Vec<String>,
)
    ensures
        strs(final(primary)@) == insert_all(strs(old(primary)@), css_literals(css@, Bucket::Primary)),
        strs(final(background)@) == insert_all(strs(old(background)@), css_literals(css@, Bucket::Background)),
        strs(final(text)@) == insert_all(strs(old(text)@), css_literals(css@, Bucket::TextColor)),
        strs(final(border)@) == insert_all(strs(old(border)@), css_literals(css@, Bucket::Border)),
{
    let all = split_lines(&chars_of(css));
    let ghost frags = char_seqs(all@);
    let mut k: usize = 0;
    while k < all.len()
        invariant
            k <= all@.len(),
            frags == char_seqs(all@),
            frags == lines(css@),
            strs(primary@) == insert_all(strs(old(primary)@), gather(frags.take(k as int), Bucket::Primary)),
            strs(background@) == insert_all(strs(old(background)@), gather(frags.take(k as int), Bucket::Background)),
            strs(text@) == insert_all(strs(old(text)@), gather(frags.take(k as int), Bucket::TextColor)),
            strs(border@) == insert_all(strs(old(border)@), gather(frags.take(k as int), Bucket::Border)),
        decreases all@.len() - k,
    {
        proof {
            lemma_gather_step(frags, k as int, Bucket::Primary, strs(old(primary)@));
            lemma_gather_step(frags, k as int, Bucket::Background, strs(old(background)@));
            lemma_gather_step(frags, k as int, Bucket::TextColor, strs(old(text)@));
            lemma_gather_step(frags, k as int, Bucket::Border, strs(old(border)@));
        }
        colors_into(&all[k], primary, background, text, border);
        k = k + 1;
    }
    assert(frags.take(k as int) =~= frags);
}

/// Adds the four font property values of one fragment to their sets.
fn typography_into(
    frag: &Vec<char>,
    families: &mut Vec<String>,
    sizes: &mut Vec<String>,
    weights: &mut Vec<String>,
    heights: &mut Vec<String>,
)
    ensures
        strs(final(families)@) == insert_all(strs(old(families)@), literals_in(frag@, Bucket::FontFamily)),
        strs(final(sizes)@) == insert_all(strs(old(sizes)@), literals_in(frag@, Bucket::FontSize)),
        strs(final(weights)@) == insert_all(strs(old(weights)@), literals_in(frag@, Bucket::FontWeight)),
        strs(final(heights)@) == insert_all(strs(old(heights)@), literals_in(frag@, Bucket::LineHeight)),
{
    property_into(frag, "font-family", families);
    property_into(frag, "font-size", sizes);
    property_into(frag, "font-weight", weights);
    property_into(frag, "line-height", heights);
}

/// Adds the value of property `p` in `frag`, if it has one, to `set`.
fn property_into(frag: &Vec<char>, p: &str, set: &mut Vec<String>)
    ensures
        strs(final(set)@) == insert_all(strs(old(set)@), opt_seq(property_value(frag@, p@))),
{
    let found = property_lookup(frag, p);
    match found {
        Some(v) => {
            proof {
                lemma_insert_one(strs(set@), v@);
            }
            insert_literal(set, &v);
        },
        None => {},
    }
}

/// Adds the font-family, font-size, font-weight and line-height values of an
/// inline `style` attribute (the first declaration of each) to their sets.
pub fn extract_typography_from_style(
    style: &str,
    families: &mut Vec<String>,
    sizes: &mut Vec<String>,
    weights: &mut Vec<String>,
    heights: &mut Vec<String>,
)
    ensures
        strs(final(families)@) == insert_all(strs(old(families)@), style_literals(style@, Bucket::FontFamily)),
        strs(final(sizes)@) == insert_all(strs(old(sizes)@), style_literals(style@, Bucket::FontSize)),
        strs(final(weights)@) == insert_all(strs(old(weights)@), style_literals(style@, Bucket::FontWeight)),
        strs(final(heights)@) == insert_all(strs(old(heights)@), style_literals(style@, Bucket::LineHeight)),
{
    let frag = chars_of(style);
    typography_into(&frag, families, sizes, weights, heights);
}

/// Adds the font property values of each line of a style sheet to their sets.
pub fn extract_typography_from_css(
    css: &str,
    families: &mut Vec<String>,
    sizes: &mut Vec<String>,
    weights: &mut Vec<String>,
    heights: &mut Vec<String>,
)
    ensures
        strs(final(families)@) == insert_all(strs(old(families)@), css_literals(css@, Bucket::FontFamily)),
        strs(final(sizes)@) == insert_all(strs(old(sizes)@), css_literals(css@, Bucket::FontSize)),
        strs(final(weights)@) == insert_all(strs(old(weights)@), css_literals(css@, Bucket::FontWeight)),
        strs(final(heights)@) == insert_all(strs(old(heights)@), css_literals(css@, Bucket::LineHeight)),
{
    let all = split_lines(&chars_of(css));
    let ghost frags = char_seqs(all@);
    let mut k: usize = 0;
    while k < all.len()
        invariant
            k <= all@.len(),
            frags == char_seqs(all@),
            frags == lines(css@),
            strs(families@) == insert_all(strs(old(families)@), gather(frags.take(k as int), Bucket::FontFamily)),
            strs(sizes@) == insert_all(strs(old(sizes)@), gather(frags.take(k as int), Bucket::FontSize)),
            strs(weights@) == insert_all(strs(old(weights)@), gather(frags.take(k as int), Bucket::FontWeight)),
            strs(heights@) == insert_all(strs(old(heights)@), gather(frags.take(k as int), Bucket::LineHeight)),
        decreases all@.len() - k,
    {
        proof {
            lemma_gather_step(frags, k as int, Bucket::FontFamily, strs(old(families)@));
            lemma_gather_step(frags, k as int, Bucket::FontSize, strs(old(sizes)@));
            lemma_gather_step(frags, k as int, Bucket::FontWeight, strs(old(weights)@));
            lemma_gather_step(frags, k as int, Bucket::LineHeight, strs(old(heights)@));
        }
        typography_into(&all[k], families, sizes, weights, heights);
        k = k + 1;
    }
    assert(frags.take(k as int) =~= frags);
}

/// Adds the length literals of one fragment to the spacing sets whose
/// keyword (`margin`, `padding`, `gap`) the fragment names.
fn spacing_into(
    frag: &Vec<char>,
    margins: &mut Vec<String>,
    paddings: &mut Vec<String>,
    gaps: &mut Vec<String>,
)
    ensures
        strs(final(margins)@) == insert_all(strs(old(margins)@), literals_in(frag@, Bucket::Margin)),
        strs(final(paddings)@) == insert_all(strs(old(paddings)@), literals_in(frag@, Bucket::Padding)),
        strs(final(gaps)@) == insert_all(strs(old(gaps)@), literals_in(frag@, Bucket::Gap)),
{
    let lits = length_literals(frag);
    if contains_word(frag, "margin") {
        insert_literals(margins, &lits);
    }
    if contains_word(frag, "padding") {
        insert_literals(paddings, &lits);
    }
    if contains_word(frag, "gap") {
        insert_literals(gaps, &lits);
    }
}

/// Adds the spacing lengths of a sequence of fragments to the spacing sets.
fn spacing_over(
    all: &Vec<Vec<char>>,
    margins: &mut Vec<String>,
    paddings: &mut Vec<String>,
    gaps: &mut Vec<String>,
)
    ensures
        strs(final(margins)@) == insert_all(strs(old(margins)@), gather(char_seqs(all@), Bucket::Margin)),
        strs(final(paddings)@) == insert_all(strs(old(paddings)@), gather(char_seqs(all@), Bucket::Padding)),
        strs(final(gaps)@) == insert_all(strs(old(gaps)@), gather(char_seqs(all@), Bucket::Gap)),
{
    let ghost frags = char_seqs(all@);
    let mut k: usize = 0;
    while k < all.len()
        invariant
            k <= all@.len(),
            frags == char_seqs(all@),
            strs(margins@) == insert_all(strs(old(margins)@), gather(frags.take(k as int), Bucket::Margin)),
            strs(paddings@) == insert_all(strs(old(paddings)@), gather(frags.take(k as int), Bucket::Padding)),
            strs(gaps@) == insert_all(strs(old(gaps)@), gather(frags.take(k as int), Bucket::Gap)),
        decreases all@.len() - k,
    {
        proof {
            lemma_gather_step(frags, k as int, Bucket::Margin, strs(old(margins)@));
            lemma_gather_step(frags, k as int, Bucket::Padding, strs(old(paddings)@));
            lemma_gather_step(frags, k as int, Bucket::Gap, strs(old(gaps)@));
        }
        spacing_into(&all[k], margins, paddings, gaps);
        k = k + 1;
    }
    assert(frags.take(k as int) =~= frags);
}

/// Adds the spacing lengths of an inline `style` attribute, read declaration
/// by declaration (split at `;`), to the spacing sets.
pub fn extract_spacing_from_style(
    style: &str,
    margins: &mut Vec<String>,
    paddings: &mut Vec<String>,
    gaps: &mut Vec<String>,
)
    ensures
        strs(final(margins)@) == insert_all(strs(old(margins)@), style_literals(style@, Bucket::Margin)),
        strs(final(paddings)@) == insert_all(strs(old(paddings)@), style_literals(style@, Bucket::Padding)),
        strs(final(gaps)@) == insert_all(strs(old(gaps)@), style_literals(style@, Bucket::Gap)),
{
    let pieces = split_chars(&chars_of(style), ';');
    spacing_over(&pieces, margins, paddings, gaps);
}

/// Adds the spacing lengths of a style sheet, read line by line, to the
/// spacing sets.
pub fn extract_spacing_from_css(
    css: &str,
    margins: &mut Vec<String>,
    paddings: &mut Vec<String>,
    gaps: &mut Vec<String>,
)
    ensures
        strs(final(margins)@) == insert_all(strs(old(margins)@), css_literals(css@, Bucket::Margin)),
        strs(final(paddings)@) == insert_all(strs(old(paddings)@), css_literals(css@, Bucket::Padding)),
        strs(final(gaps)@) == insert_all(strs(old(gaps)@), css_literals(css@, Bucket::Gap)),
{
    let all = split_lines(&chars_of(css));
    spacing_over(&all, margins, paddings, gaps);
}

} // verus!
