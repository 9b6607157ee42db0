//! Reading texts and attributes off the elements of a parsed page.

use crate::markup::{
    attribute, attribute_of, child_texts, child_texts_of, element_matches, is_selector,
    page_fits, page_matches, parse_document, parse_selector, places, select_in_element,
    select_in_page, selector_fits, Element, Page, Place, Query, PAGE_LIMIT, SELECTOR_LIMIT,
};
use crate::text::{join_texts, joined, trim, trimmed};
use vstd::prelude::*;

verus! {

/// Whether `css` can be read as a selector: it is short enough, and the
/// HTML library accepts it.
pub open spec fn is_query(css: Seq<char>) -> bool {
    selector_fits(css) && is_selector(css)
}

impl Page {
    /// Parses the text of a page. `None` where the text has more than
    /// [`PAGE_LIMIT`] bytes; any other text is parsed.
    pub fn parse(text: &str) -> (page: Option<Page>)
        ensures
            page is Some <==> page_fits(text@),
            page matches Some(found) ==> found@ == text@,
    {
        if text.as_bytes().len() <= PAGE_LIMIT {
            Some(parse_document(text))
        } else {
            None
        }
    }

    /// The elements of the page that `query` matches.
    pub fn select<'a>(&'a self, query: &Query) -> (elements: Vec<Element<'a>>)
        ensures
            elements.deep_view() == places(self@, page_matches(self@, query@)),
    {
        select_in_page(self, query)
    }
}

impl Query {
    /// Reads a selector. `None` where the text has more than
    /// [`SELECTOR_LIMIT`] bytes, and where the HTML library rejects it.
    pub fn parse(css: &str) -> (query: Option<Query>)
        ensures
            query is Some <==> is_query(css@),
            query matches Some(found) ==> found@ == css@,
    {
        if css.as_bytes().len() > SELECTOR_LIMIT {
            return None;
        }
        match parse_selector(css) {
            Ok(query) => Some(query),
            Err(_) => None,
        }
    }
}

/// The text that stands directly inside `element`: its text children joined
/// in order, without the blanks at either end. What its child elements hold
/// is left out.
pub open spec fn own_text(element: Place) -> Seq<char> {
    trimmed(joined(child_texts_of(element)))
}

/// The first of the elements below `scope` that the selector `css` matches.
pub open spec fn first_match(scope: Place, css: Seq<char>) -> Option<Place> {
    let found = element_matches(scope, css);
    if found.len() > 0 {
        Some(Place { page: scope.page, node: found[0] })
    } else {
        None
    }
}

/// The own text of the first element below `scope` that the selector `css`
/// matches.
pub open spec fn first_text(scope: Place, css: Seq<char>) -> Option<Seq<char>> {
    match first_match(scope, css) {
        Some(element) => Some(own_text(element)),
        None => None,
    }
}

/// The attribute `name` of the first element below `scope` that the
/// selector `css` matches.
pub open spec fn first_attribute(scope: Place, css: Seq<char>, name: Seq<char>) -> Option<
    Seq<char>,
> {
    match first_match(scope, css) {
        Some(element) => attribute_of(element, name),
        None => None,
    }
}

impl<'a> Element<'a> {
    /// Reads the text that stands directly inside the element.
    pub fn text(&self) -> (text: String)
        ensures
            text@ == own_text(self@),
    {
        let texts = child_texts(self);
        let whole = join_texts(&texts);
        trim(whole.as_str()).to_owned()
    }

    /// Reads the value that the element carries for the attribute `name`.
    /// `None` where it has no such attribute.
    pub fn attr(&self, name: &str) -> (value: Option<String>)
        ensures
            value.deep_view() == attribute_of(self@, name@),
    {
        attribute(self, name)
    }

    /// Reads the own text of the first element below this one that `query`
    /// matches. `None` where it matches nothing.
    pub fn read_text(&self, query: &Query) -> (text: Option<String>)
        ensures
            text.deep_view() == first_text(self@, query@),
    {
        let found = select_in_element(self, query);
        proof {
            let nodes = element_matches(self@, query@);
            assert(found.deep_view().len() == found@.len());
            assert(places(self@.page, nodes).len() == nodes.len());
            if nodes.len() > 0 {
                assert(found.deep_view()[0] == found@[0]@);
                assert(places(self@.page, nodes)[0] == Place { page: self@.page, node: nodes[0] });
            }
        }
        if found.len() > 0 {
            Some(found[0].text())
        } else {
            None
        }
    }

    /// Reads the attribute `name` of the first element below this one that
    /// `query` matches. `None` where it matches nothing, and where that
    /// element has no such attribute.
    pub fn read_attribute(&self, query: &Query, name: &str) -> (value: Option<String>)
        ensures
            value.deep_view() == first_attribute(self@, query@, name@),
    {
        let found = select_in_element(self, query);
        proof {
            let nodes = element_matches(self@, query@);
            assert(found.deep_view().len() == found@.len());
            assert(places(self@.page, nodes).len() == nodes.len());
            if nodes.len() > 0 {
                assert(found.deep_view()[0] == found@[0]@);
                assert(places(self@.page, nodes)[0] == Place { page: self@.page, node: nodes[0] });
            }
        }
        if found.len() > 0 {
            found[0].attr(name)
        } else {
            None
        }
    }
}

} // verus!
