//! HTML documents, read by the `scraper` crate.

use vstd::prelude::*;

verus! {

/// What the elements of the HTML document `document` that the CSS selector
/// `selector` matches have as their attribute `attribute`: one entry for each
/// such element, in the order in which `scraper` comes by them, `None` for an
/// element without the attribute. There is no entry when `selector` is no
/// selector.
pub uninterp spec fn attributes_of(
    document: Seq<char>,
    selector: Seq<char>,
    attribute: Seq<char>,
) -> Seq<Option<Seq<char>>>;

/// The characters of optional strings.
pub open spec fn texts_of(values: Seq<Option<String>>) -> Seq<Option<Seq<char>>> {
    Seq::new(
        values.len(),
        |i: int|
            match values[i] {
                Some(v) => Some(v@),
                None => None,
            },
    )
}

/// Parses `selector` with `scraper::Selector::parse` and `document` with
/// `scraper::Html::parse_document`, walks the elements of `Html::select` and
/// reads the attribute of each with `Element::attr`. The contract claims only
/// that the outcome is `attributes_of` of the three arguments: the same
/// document, selector and attribute always give the same values.
#[verifier::external_body]
pub(crate) fn select_attributes(document: &str, selector: &str, attribute: &str) -> (values: Vec<Option<String>>)
    ensures
        texts_of(values@) == attributes_of(document@, selector@, attribute@),
{
    match scraper::Selector::parse(selector) {
        Ok(chosen) => scraper::Html::parse_document(document)
            .select(&chosen)
            .map(|element| element.value().attr(attribute).map(|v| v.to_owned()))
            .collect(),
        Err(_) => Vec::new(),
    }
}

} // verus!
