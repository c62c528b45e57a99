//! Reading a page's markup: elements picked by a selector, their attributes
//! and their text, as parsed by the `scraper` crate.

use vstd::prelude::*;
use crate::model::strs;

verus! {

pub open spec fn opt_view(o: Option<String>) -> Option<Seq<char>> {
    match o {
        Some(s) => Some(s@),
        None => None,
    }
}

/// The views of a sequence of attribute pairs.
pub open spec fn pair_views(v: Seq<(Option<String>, Option<String>)>) -> Seq<
    (Option<Seq<char>>, Option<Seq<char>>),
> {
    v.map_values(|p: (Option<String>, Option<String>)| (opt_view(p.0), opt_view(p.1)))
}

/// For each element of the document `html` that `selector` picks, in the
/// order scraper's `select` yields them, the values of its attributes
/// `first` and `second`.
pub uninterp spec fn selected_attributes(
    html: Seq<char>,
    selector: Seq<char>,
    first: Seq<char>,
    second: Seq<char>,
) -> Seq<(Option<Seq<char>>, Option<Seq<char>>)>;

/// For each element of the document `html` that `selector` picks, in the
/// order scraper's `select` yields them, the concatenated text of its
/// descendant text nodes.
pub uninterp spec fn selected_texts(html: Seq<char>, selector: Seq<char>) -> Seq<Seq<char>>;

/// Relies on scraper's `Html::parse_document`, `Selector::parse`,
/// `Html::select` and `ElementRef::attr`: the elements that the selector
/// picks, in the order `select` yields them, with two of their attributes; none when the
/// selector does not parse. Parsing and selection depend on the text alone.
#[verifier::external_body]
pub(crate) fn select_attributes(html: &str, selector: &str, first: &str, second: &str) -> (r: Vec<
    (Option<String>, Option<String>),
>)
    ensures
        pair_views(r@) == selected_attributes(html@, selector@, first@, second@),
{
    let doc = scraper::Html::parse_document(html);
    match scraper::Selector::parse(selector) {
        Ok(sel) => doc.select(&sel).map(
            |e| (e.attr(first).map(|v| v.to_string()), e.attr(second).map(|v| v.to_string())),
        ).collect(),
        Err(_) => Vec::new(),
    }
}

/// Relies on scraper's `Html::parse_document`, `Selector::parse`,
/// `Html::select` and `ElementRef::text`: the text content of each element
/// that the selector picks, in the order `select` yields them; none when the selector does
/// not parse. Parsing and selection depend on the text alone.
#[verifier::external_body]
pub(crate) fn select_texts(html: &str, selector: &str) -> (r: Vec<String>)
    ensures
        strs(r@) == selected_texts(html@, selector@),
{
    let doc = scraper::Html::parse_document(html);
    match scraper::Selector::parse(selector) {
        Ok(sel) => doc.select(&sel).map(|e| e.text().collect::<String>()).collect(),
        Err(_) => Vec::new(),
    }
}

} // verus!
