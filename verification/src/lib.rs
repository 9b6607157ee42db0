//! Reading trading-card data out of the card list pages of the game's site.
//!
//! The library takes a page as text and gives back what the page lists: the
//! card sets of the series menu, or the cards of a set, each card with its
//! categorical fields validated and its numbers kept only where the card's
//! category defines them. It also says where the pictures lie. Fetching
//! pages and saving pictures is left to the caller.
//!
//! - [`card`]: the card and the values of its categorical fields
//! - [`card_set`]: the entries of the series menu
//! - [`card_scraper`]: one card, read off the piece of a page that describes it
//! - [`op_scraper`]: the listing page as a whole
//! - [`localizer`]: the site's address and its own words
//! - [`error`]: what can go wrong
//! - [`page`], [`markup`]: looking things up on a parsed page
//! - [`text`]: the text helpers underneath

pub mod card;
pub mod card_scraper;
pub mod card_set;
pub mod error;
pub mod localizer;
pub mod markup;
pub mod op_scraper;
pub mod page;
pub mod text;
