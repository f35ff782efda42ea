//! The HTML tree and its selectors, as the `scraper` crate provides them.
//!
//! The library does not look into a document, an element or a selector. It
//! hands them to `scraper` and says of the answers only that they are the
//! answers: the same document and the same selector give the same
//! elements, and the same element gives the same markup. For the markup
//! this needs the feature `deterministic` of `scraper`, which keeps the
//! attributes of an element in the order of the source.

use scraper::{ElementRef, Html, Selector};
use vstd::prelude::*;

verus! {

/// `scraper::Html`, the tree of a document.
#[verifier::external_type_specification]
#[verifier::external_body]
pub struct ExHtml(Html);

/// `scraper::Selector`, a parsed group of CSS selectors.
#[verifier::external_type_specification]
#[verifier::external_body]
pub struct ExSelector(Selector);

/// `scraper::ElementRef`, an element of a tree.
#[verifier::external_type_specification]
#[verifier::external_body]
pub struct ExElementRef<'a>(ElementRef<'a>);

/// The tree that `Html::parse_document` builds from the text of a document.
pub uninterp spec fn parsed_document(content: Seq<char>) -> Html;

/// The selector that `Selector::parse` reads from a CSS text; `None` where
/// the text is no group of selectors.
pub uninterp spec fn parsed_selector(css: Seq<char>) -> Option<Selector>;

/// The elements that `Html::select` yields: those of the document that
/// match the selector, in the order in which the tree holds them.
pub uninterp spec fn document_matches(document: &Html, selector: Selector) -> Seq<ElementRef<'_>>;

/// The elements that `ElementRef::select` yields: the descendants of the
/// element that match the selector, in the order of the document.
pub uninterp spec fn element_matches(element: ElementRef<'_>, selector: Selector) -> Seq<
    ElementRef<'_>,
>;

/// The text that `ElementRef::inner_html` gives: the markup between the
/// start tag and the end tag of the element.
pub uninterp spec fn element_markup(element: ElementRef<'_>) -> Seq<char>;

/// Calls `Html::parse_document`, which builds a tree from any text. The tree
/// depends on the text alone.
#[verifier::external_body]
pub(crate) fn parse_document(content: &str) -> (document: Html)
    ensures
        document == parsed_document(content@),
{
    Html::parse_document(content)
}

/// Calls `Selector::parse`, and gives `None` where it reports an error. The
/// selector depends on the text alone.
#[verifier::external_body]
pub(crate) fn parse_selector(css: &str) -> (selector: Option<Selector>)
    ensures
        selector == parsed_selector(css@),
{
    Selector::parse(css).ok()
}

/// Calls `Html::select` and collects what it yields, in order.
#[verifier::external_body]
pub(crate) fn select_in_document<'a>(document: &'a Html, selector: &Selector) -> (found: Vec<
    ElementRef<'a>,
>)
    ensures
        found@ == document_matches(document, *selector),
{
    document.select(selector).collect()
}

/// Calls `ElementRef::select` and collects what it yields, in order.
#[verifier::external_body]
pub(crate) fn select_in_element<'a>(element: &ElementRef<'a>, selector: &Selector) -> (found:
    Vec<ElementRef<'a>>)
    ensures
        found@ == element_matches(*element, *selector),
{
    element.select(selector).collect()
}

/// Calls `ElementRef::inner_html`.
#[verifier::external_body]
pub(crate) fn inner_html(element: &ElementRef) -> (markup: String)
    ensures
        markup@ == element_markup(*element),
{
    element.inner_html()
}

} // verus!
