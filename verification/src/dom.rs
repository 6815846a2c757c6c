//! The parsed page: what this library asks of the HTML parser.
//!
//! A document and its elements stay values of the parser. The library reads
//! them through the functions below, each of which makes one call. Of what a
//! call returns the library assumes only that it depends on what the call is
//! given and on nothing else: the same text parses to the same tree, the
//! same selector matches the same elements of it, and an element holds the
//! same tag name, attributes, text, children and ancestors whenever it is
//! asked. Each result has a name, and the contracts of the library speak of
//! these names.

use crate::text::opt_text;
use vstd::prelude::*;

verus! {

/// `scraper::Html`: the tree of a parsed page.
#[verifier::external_type_specification]
#[verifier::external_body]
pub struct ExHtml(scraper::Html);

/// `scraper::Selector`: a selector, ready to be matched against elements.
#[verifier::external_type_specification]
#[verifier::external_body]
pub struct ExSelector(scraper::Selector);

/// `scraper::ElementRef`: one element of a tree.
#[verifier::external_type_specification]
#[verifier::external_body]
pub struct ExElementRef<'a>(scraper::ElementRef<'a>);

/// What `scraper::Html::parse_document` makes of a text: the tree of the
/// page.
pub uninterp spec fn parsed_document(html: Seq<char>) -> scraper::Html;

/// What `scraper::Selector::parse` makes of a text: a selector, or nothing
/// where the text is none.
pub uninterp spec fn parsed_selector(text: Seq<char>) -> Option<scraper::Selector>;

/// What `scraper::Html::select` hands out: the elements of a document that a
/// selector matches, in the order in which it hands them out.
pub uninterp spec fn selected(document: scraper::Html, selector: scraper::Selector) -> Seq<
    scraper::ElementRef<'static>,
>;

/// `scraper::Html::parse_document`: the tree of a page. Parsing accepts every
/// text, and the tree depends on the text alone.
#[verifier::external_body]
pub(crate) fn parse_document(html: &str) -> (r: scraper::Html)
    ensures
        r == parsed_document(html@),
{
    scraper::Html::parse_document(html)
}

/// `scraper::Selector::parse`: a selector from its text, or nothing where the
/// text is no selector. The result depends on the text alone.
#[verifier::external_body]
pub(crate) fn parse_selector(selector: &str) -> (r: Option<scraper::Selector>)
    ensures
        r == parsed_selector(selector@),
{
    scraper::Selector::parse(selector).ok()
}

/// `scraper::Html::select`: the elements of the document that the selector
/// matches. They depend on the document and the selector alone.
#[verifier::external_body]
pub(crate) fn select<'a>(document: &'a scraper::Html, selector: &scraper::Selector) -> (r: Vec<
    scraper::ElementRef<'a>,
>)
    ensures
        r@ == selected(*document, *selector),
{
    document.select(selector).collect()
}

/// What an element holds as its tag name.
pub uninterp spec fn element_tag(element: scraper::ElementRef) -> Seq<char>;

/// What an element holds as its attributes: the value of each, by its name.
/// Only the attributes that stand in no namespace count.
pub uninterp spec fn element_attributes(element: scraper::ElementRef) -> Map<Seq<char>, Seq<char>>;

/// What an element holds as its text: the text nodes below it, one after
/// the other.
pub uninterp spec fn element_text(element: scraper::ElementRef) -> Seq<char>;

/// The value of an attribute of an element, if the element has the
/// attribute.
pub open spec fn element_attribute(element: scraper::ElementRef, name: Seq<char>) -> Option<
    Seq<char>,
> {
    if element_attributes(element).dom().contains(name) {
        Some(element_attributes(element)[name])
    } else {
        None
    }
}

/// `scraper::node::Element::name`: the tag name of an element. It depends on
/// the element alone.
#[verifier::external_body]
pub(crate) fn tag_name(element: &scraper::ElementRef) -> (r: String)
    ensures
        r@ == element_tag(*element),
{
    element.value().name().to_string()
}

/// `scraper::node::Element::attr`: the value of an attribute of an element,
/// or nothing where the element has no such attribute. It depends on the
/// element and the name alone.
#[verifier::external_body]
pub(crate) fn attribute(element: &scraper::ElementRef, name: &str) -> (r: Option<String>)
    ensures
        opt_text(r) == (if element_attributes(*element).dom().contains(name@) {
            Some(element_attributes(*element)[name@])
        } else {
            None
        }),
{
    element.value().attr(name).map(|value| value.to_string())
}

/// `scraper::ElementRef::text`: the text inside an element, all text nodes
/// below it put together. It depends on the element alone.
#[verifier::external_body]
pub(crate) fn text_content(element: &scraper::ElementRef) -> (r: String)
    ensures
        r@ == element_text(*element),
{
    element.text().collect()
}

/// What `scraper::ElementRef::child_elements` hands out: the children of an
/// element that are elements themselves, in their order.
pub uninterp spec fn children_of(element: scraper::ElementRef) -> Seq<
    scraper::ElementRef<'static>,
>;

/// What `ego_tree::NodeRef::ancestors` hands out, as far as it is elements:
/// the elements around an element, from the nearest outwards.
pub uninterp spec fn ancestors_of(element: scraper::ElementRef) -> Seq<
    scraper::ElementRef<'static>,
>;

/// The elements of a document that a selector, given as text, matches; none
/// where the text is no selector.
pub open spec fn matched(document: scraper::Html, selector: Seq<char>) -> Seq<
    scraper::ElementRef<'static>,
> {
    match parsed_selector(selector) {
        Some(s) => selected(document, s),
        None => Seq::empty(),
    }
}

/// `scraper::ElementRef::child_elements`: the children of an element that are
/// elements themselves. They depend on the element alone.
#[verifier::external_body]
pub(crate) fn child_elements<'a>(element: &scraper::ElementRef<'a>) -> (r: Vec<
    scraper::ElementRef<'a>,
>)
    ensures
        r@ == children_of(*element),
{
    element.child_elements().collect()
}

/// `ego_tree::NodeRef::ancestors`, with `scraper::ElementRef::wrap` on each:
/// the elements around an element. They depend on the element alone.
#[verifier::external_body]
pub(crate) fn ancestor_elements<'a>(element: &scraper::ElementRef<'a>) -> (r: Vec<
    scraper::ElementRef<'a>,
>)
    ensures
        r@ == ancestors_of(*element),
{
    element.ancestors().filter_map(scraper::ElementRef::wrap).collect()
}

} // verus!
