//! Structural queries on HTML text.
//!
//! Each query parses `html` as a document and matches a CSS selector against
//! it. What comes back depends on the query's arguments alone, so it is named
//! by a spec function of them.

use vstd::prelude::*;

use crate::names::strs;

verus! {

/// The text content of each element of the document `html` that `selector`
/// matches, in document order.
pub uninterp spec fn selected_texts(html: Seq<char>, selector: Seq<char>) -> Seq<Seq<char>>;

/// The value of attribute `attr` of each element of the document `html` that
/// `selector` matches, in document order.
pub uninterp spec fn selected_attrs(html: Seq<char>, selector: Seq<char>, attr: Seq<char>) -> Seq<
    Option<Seq<char>>,
>;

/// The HTML of each element of the document `html` that `selector` matches,
/// in document order.
pub uninterp spec fn selected_html(html: Seq<char>, selector: Seq<char>) -> Seq<Seq<char>>;

/// The character sequences of optional strings.
pub open spec fn opt_strs(v: Seq<Option<String>>) -> Seq<Option<Seq<char>>> {
    v.map_values(
        |o: Option<String>|
            match o {
                Some(s) => Some(s@),
                None => None,
            },
    )
}

/// Relies on scraper's `Html::parse_document`, `Selector::parse`,
/// `Html::select` and `ElementRef::text`: the concatenated text of each
/// matching element. A selector that does not parse matches nothing.
#[verifier::external_body]
pub(crate) fn select_texts(html: &str, selector: &str) -> (r: Vec<String>)
    ensures
        strs(r@) == selected_texts(html@, selector@),
{
    let doc = scraper::Html::parse_document(html);
    let mut out = Vec::new();
    if let Ok(sel) = scraper::Selector::parse(selector) {
        for e in doc.select(&sel) {
            out.push(e.text().collect::<String>());
        }
    }
    out
}

/// Relies on scraper's `Html::parse_document`, `Selector::parse`,
/// `Html::select` and `ElementRef::attr`: the value of one attribute of each
/// matching element. A selector that does not parse matches nothing.
#[verifier::external_body]
pub(crate) fn select_attrs(html: &str, selector: &str, attr: &str) -> (r: Vec<Option<String>>)
    ensures
        opt_strs(r@) == selected_attrs(html@, selector@, attr@),
{
    let doc = scraper::Html::parse_document(html);
    let mut out = Vec::new();
    if let Ok(sel) = scraper::Selector::parse(selector) {
        for e in doc.select(&sel) {
            out.push(e.attr(attr).map(|a| a.to_string()));
        }
    }
    out
}

/// Relies on scraper's `Html::parse_document`, `Selector::parse`,
/// `Html::select` and `ElementRef::html`: the serialised HTML of each
/// matching element. A selector that does not parse matches nothing.
#[verifier::external_body]
pub(crate) fn select_html(html: &str, selector: &str) -> (r: Vec<String>)
    ensures
        strs(r@) == selected_html(html@, selector@),
{
    let doc = scraper::Html::parse_document(html);
    let mut out = Vec::new();
    if let Ok(sel) = scraper::Selector::parse(selector) {
        for e in doc.select(&sel) {
            out.push(e.html());
        }
    }
    out
}

} // verus!
