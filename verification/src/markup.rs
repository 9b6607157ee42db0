//! The calls into the HTML library. Everything the library learns of a page
//! comes through the functions of this file; their contracts are taken on
//! trust from the HTML library's source and are not proved here.

use vstd::prelude::*;
use vstd::utf8::encode_utf8;

verus! {

#[verifier::external_type_specification]
#[verifier::external_body]
pub struct ExHtml(scraper::Html);

#[verifier::external_type_specification]
#[verifier::external_body]
pub struct ExSelector(scraper::Selector);

#[verifier::external_type_specification]
#[verifier::external_body]
pub struct ExSelectorErrorKind(scraper::error::SelectorErrorKind);

#[verifier::external_type_specification]
#[verifier::external_body]
pub struct ExElementRef<'a>(scraper::ElementRef<'a>);

/// A page that was parsed. As a mathematical value it is the text that it
/// was parsed from.
pub struct Page {
    html: scraper::Html,
    text: Ghost<Seq<char>>,
}

impl View for Page {
    type V = Seq<char>;

    closed spec fn view(&self) -> Seq<char> {
        self.text@
    }
}

/// A selector that was read. As a mathematical value it is the text that
/// it was read from.
pub struct Query {
    selector: scraper::Selector,
    css: Ghost<Seq<char>>,
}

impl View for Query {
    type V = Seq<char>;

    closed spec fn view(&self) -> Seq<char> {
        self.css@
    }
}

/// Where an element stands: the text of its page, and the number that the
/// HTML library gave to its node when it built the page.
pub struct Place {
    pub page: Seq<char>,
    pub node: nat,
}

/// An element of a page. As a mathematical value it is its place.
pub struct Element<'a> {
    node: scraper::ElementRef<'a>,
    place: Ghost<Place>,
}

impl<'a> View for Element<'a> {
    type V = Place;

    closed spec fn view(&self) -> Place {
        self.place@
    }
}

impl<'a> DeepView for Element<'a> {
    type V = Place;

    open spec fn deep_view(&self) -> Place {
        self@
    }
}

/// The places on `page` of the nodes `nodes`, in order.
pub open spec fn places(page: Seq<char>, nodes: Seq<nat>) -> Seq<Place> {
    nodes.map_values(|node: nat| Place { page, node })
}

/// The most bytes that a page may have: 256 MiB. The HTML library keeps
/// each text of a page in a buffer whose size it holds in a `u32` and
/// rounds up to a power of two, and it panics where that cannot be done.
/// Where it replaces a byte that it does not accept, it writes three bytes
/// for the one, so a text of a page can be three times as long as the
/// page. A page within this limit stays clear of the buffer's, on a machine
/// of 32 bits too.
pub const PAGE_LIMIT: usize = 0x1000_0000;

/// The most bytes that the text of a selector may have. The HTML library
/// counts the lines of the text in a `u32`, so a text with more line breaks
/// than that holds can overflow the count.
pub const SELECTOR_LIMIT: usize = 0xffff_ffff;

/// Whether `text` is short enough to be parsed as a page.
pub open spec fn page_fits(text: Seq<char>) -> bool {
    encode_utf8(text).len() <= PAGE_LIMIT
}

/// Whether `css` is short enough to be read as a selector.
pub open spec fn selector_fits(css: Seq<char>) -> bool {
    encode_utf8(css).len() <= SELECTOR_LIMIT
}

/// Whether the HTML library reads `css` as a selector.
pub uninterp spec fn is_selector(css: Seq<char>) -> bool;

/// The nodes of the elements that the selector `css` matches on the page
/// parsed from `page`, in the order in which the HTML library yields them.
pub uninterp spec fn page_matches(page: Seq<char>, css: Seq<char>) -> Seq<nat>;

/// The nodes of the elements below `element` that the selector `css`
/// matches, in the order of the page.
pub uninterp spec fn element_matches(element: Place, css: Seq<char>) -> Seq<nat>;

/// The value that `element` carries for the attribute `name`.
pub uninterp spec fn attribute_of(element: Place, name: Seq<char>) -> Option<Seq<char>>;

/// One entry for each child node of `element`, in order: the text of a text
/// node, `None` for a node of any other kind.
pub uninterp spec fn child_texts_of(element: Place) -> Seq<Option<Seq<char>>>;

/// Calls `scraper::Html::parse_document`, which builds a tree from any
/// text that its buffers can hold. A text beyond [`PAGE_LIMIT`] is left
/// out: the call can panic on it.
#[verifier::external_body]
pub(crate) fn parse_document(text: &str) -> (page: Page)
    requires
        page_fits(text@),
    ensures
        page@ == text@,
{
    Page { html: scraper::Html::parse_document(text), text: Ghost(text@) }
}

/// Calls `scraper::Selector::parse`. Whether a text is accepted, and what
/// selector it gives, depends on the text alone. A text too long for the
/// line count is left out.
#[verifier::external_body]
pub(crate) fn parse_selector(css: &str) -> (parsed: Result<
    Query,
    scraper::error::SelectorErrorKind,
>)
    requires
        selector_fits(css@),
    ensures
        match parsed {
            Ok(query) => is_selector(css@) && query@ == css@,
            Err(_) => !is_selector(css@),
        },
{
    scraper::Selector::parse(css).map(|selector| Query { selector, css: Ghost(css@) })
}

/// Calls `scraper::Html::select` and collects what it yields: the elements
/// of the page that match.
#[verifier::external_body]
pub(crate) fn select_in_page<'a>(page: &'a Page, query: &Query) -> (elements: Vec<Element<'a>>)
    ensures
        elements.deep_view() == places(page@, page_matches(page@, query@)),
{
    let found = page.html.select(&query.selector);
    found.map(|node| Element { node, place: Ghost(arbitrary()) }).collect()
}

/// Calls `scraper::ElementRef::select` and collects what it yields: the
/// descendants of the element that match, in the order of the page.
#[verifier::external_body]
pub(crate) fn select_in_element<'a>(element: &Element<'a>, query: &Query) -> (elements: Vec<
    Element<'a>,
>)
    ensures
        elements.deep_view() == places(element@.page, element_matches(element@, query@)),
{
    let found = element.node.select(&query.selector);
    found.map(|node| Element { node, place: Ghost(arbitrary()) }).collect()
}

/// Calls `scraper::ElementRef::attr`: the value of the attribute of that
/// name, or `None` where the element has no such attribute.
#[verifier::external_body]
pub(crate) fn attribute(element: &Element<'_>, name: &str) -> (value: Option<String>)
    ensures
        value.deep_view() == attribute_of(element@, name@),
{
    element.node.attr(name).map(String::from)
}

/// Walks `children()` of the element and keeps, for each child, the text of
/// a `scraper::Node::Text` and nothing of any other node.
#[verifier::external_body]
pub(crate) fn child_texts(element: &Element<'_>) -> (texts: Vec<Option<String>>)
    ensures
        texts.deep_view() == child_texts_of(element@),
{
    let children = element.node.children();
    children.map(|child| child.value().as_text().map(|text| text.to_string())).collect()
}

} // verus!
