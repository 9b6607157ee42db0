//! The site's card list: where its pages lie, and what a page that was
//! fetched from it lists. Fetching is left to the caller, who hands the
//! page over as text.

use crate::card::{Card, CardView};
use crate::card_scraper::{created, lemma_created, CardScraper, CardSelectors};
use crate::card_set::{lemma_selectable, retain_selectable, selectable, CardSet, CardSetView};
use crate::error::{ScrapeError, ScrapeErrorView};
use crate::localizer::Localizer;
use crate::markup::{
    attribute_of, is_selector, page_fits, page_matches, places, selector_fits, Page, Place, Query,
};
use crate::text::{has_chars, lemma_bytes_of_text, skip_chars};
use vstd::prelude::*;
use vstd::string::StringExecFns;

verus! {

/// Where a listing page holds the entries of its series menu.
pub const SERIES_CSS: &'static str = "div.seriesCol>select#series>option";

/// Where a listing page holds the links to its cards.
pub const ANCHORS_CSS: &'static str = "div.resultCol>a";

/// The attribute of a link that carries the card's identifier, behind one
/// character that is no part of it.
pub const IDENTIFIER_ATTRIBUTE: &'static str = "data-src";

/// How many characters stand before the identifier in what a link carries.
pub const IDENTIFIER_PREFIX: usize = 1;

/// How many characters of a picture's address lead from the listing page up
/// to the site's root, and are dropped where the address is put behind the
/// site's own.
pub const IMAGE_PREFIX: usize = 3;

/// The texts of the two selectors are short enough to be read.
proof fn lemma_selectors_fit()
    ensures
        selector_fits(SERIES_CSS@),
        selector_fits(ANCHORS_CSS@),
{
    reveal_strlit("div.seriesCol>select#series>option");
    reveal_strlit("div.resultCol>a");
    lemma_bytes_of_text(SERIES_CSS@);
    lemma_bytes_of_text(ANCHORS_CSS@);
}

/// The identifier that a link carries as `raw`: `raw` without its first
/// character. An empty `raw` carries none.
pub open spec fn card_id_of(raw: Seq<char>) -> Option<Seq<char>> {
    if raw.len() >= IDENTIFIER_PREFIX {
        Some(raw.skip(IDENTIFIER_PREFIX as int))
    } else {
        None
    }
}

/// Takes the identifier of a card out of what its link carries, by
/// dropping the first character.
pub fn card_id_from(raw: &str) -> (card_id: Option<&str>)
    ensures
        card_id.deep_view() == card_id_of(raw@),
{
    if has_chars(raw, IDENTIFIER_PREFIX) {
        Some(skip_chars(raw, IDENTIFIER_PREFIX))
    } else {
        None
    }
}

/// The entries of the series menu of the page parsed from `page` that stand
/// for a card set, in the order in which the page is read. A text too long
/// to be parsed gives an error, and so does a selector that the HTML
/// library rejects.
pub open spec fn sets_listed(page: Seq<char>) -> Result<Seq<CardSetView>, ScrapeErrorView> {
    if !page_fits(page) {
        Err(ScrapeErrorView::TooLong)
    } else if is_selector(SERIES_CSS@) {
        Ok(
            selectable(
                places(page, page_matches(page, SERIES_CSS@)).map_values(
                    |element: Place| CardSetView::of_element(element),
                ),
            ),
        )
    } else {
        Err(ScrapeErrorView::Selector)
    }
}

/// The identifier that the link at `position` among `anchors` carries.
/// `None` where the link has no identifier attribute or an empty one.
pub open spec fn card_id_at(anchors: Seq<Place>, position: int) -> Option<Seq<char>> {
    match attribute_of(anchors[position], IDENTIFIER_ATTRIBUTE@) {
        Some(raw) => card_id_of(raw),
        None => None,
    }
}

/// The card behind the link at `position` among `anchors`.
pub open spec fn card_at(
    localizer: Localizer,
    page: Seq<char>,
    anchors: Seq<Place>,
    position: int,
) -> Result<CardView, ScrapeErrorView> {
    match card_id_at(anchors, position) {
        None => Err(ScrapeErrorView::Identifier { position }),
        Some(card_id) => match created(localizer, page, card_id) {
            Ok(card) => Ok(card),
            Err(error) => Err(ScrapeErrorView::Card(error)),
        },
    }
}

/// The cards behind the first `count` of `anchors`, in order, or the error
/// of the first among them that cannot be read.
pub open spec fn cards_upto(
    localizer: Localizer,
    page: Seq<char>,
    anchors: Seq<Place>,
    count: nat,
) -> Result<Seq<CardView>, ScrapeErrorView>
    decreases count,
{
    if count == 0 {
        Ok(Seq::<CardView>::empty())
    } else {
        match cards_upto(localizer, page, anchors, (count - 1) as nat) {
            Err(error) => Err(error),
            Ok(cards) => match card_at(localizer, page, anchors, count - 1) {
                Ok(card) => Ok(cards.push(card)),
                Err(error) => Err(error),
            },
        }
    }
}

/// The cards that the page parsed from `page` lists, in the order of its
/// links. A text too long to be parsed gives an error, and so does a
/// selector that the HTML library rejects.
pub open spec fn cards_listed(localizer: Localizer, page: Seq<char>) -> Result<
    Seq<CardView>,
    ScrapeErrorView,
> {
    if !page_fits(page) {
        Err(ScrapeErrorView::TooLong)
    } else if is_selector(ANCHORS_CSS@) && CardSelectors::accepted() {
        let anchors = places(page, page_matches(page, ANCHORS_CSS@));
        cards_upto(localizer, page, anchors, anchors.len())
    } else {
        Err(ScrapeErrorView::Selector)
    }
}

/// Whether the link at `first` is the first among `anchors` whose card
/// cannot be read, and `error` what reading it gives. An error about a card
/// names the identifier that the link carries.
pub open spec fn fails_first_at(
    localizer: Localizer,
    page: Seq<char>,
    anchors: Seq<Place>,
    first: int,
    error: ScrapeErrorView,
) -> bool {
    &&& card_at(localizer, page, anchors, first) == Err::<CardView, ScrapeErrorView>(error)
    &&& forall|i: int| 0 <= i < first ==> #[trigger] card_at(localizer, page, anchors, i) is Ok
    &&& error matches ScrapeErrorView::Card(failure) ==> card_id_at(anchors, first) == Some(
        failure.card_id,
    )
}

/// Reading a list of cards is all or nothing. Where it succeeds, it gives
/// one card for each link, in order, each with an identifier, a name and
/// only the numbers of its category. Where it fails, it gives the error of
/// the first link whose card cannot be read, under that card's identifier.
pub proof fn lemma_cards_all_or_nothing(
    localizer: Localizer,
    page: Seq<char>,
    anchors: Seq<Place>,
    count: nat,
)
    ensures
        match cards_upto(localizer, page, anchors, count) {
            Ok(cards) => {
                &&& cards.len() == count
                &&& forall|i: int|
                    0 <= i < count ==> card_at(localizer, page, anchors, i) == Ok::<
                        CardView,
                        ScrapeErrorView,
                    >(#[trigger] cards[i]) && cards[i].wf()
            },
            Err(error) => exists|first: int|
                0 <= first < count && #[trigger] fails_first_at(
                    localizer,
                    page,
                    anchors,
                    first,
                    error,
                ),
        },
    decreases count,
{
    if count > 0 {
        let before = (count - 1) as nat;
        lemma_cards_all_or_nothing(localizer, page, anchors, before);
        match cards_upto(localizer, page, anchors, before) {
            Err(error) => {
                let first = choose|first: int|
                    0 <= first < before && #[trigger] fails_first_at(
                        localizer,
                        page,
                        anchors,
                        first,
                        error,
                    );
                assert(0 <= first < count);
                assert(fails_first_at(localizer, page, anchors, first, error));
            },
            Ok(cards) => {
                match card_id_at(anchors, count - 1) {
                    Some(card_id) => {
                        lemma_created(localizer, page, card_id);
                    },
                    None => {},
                }
                match card_at(localizer, page, anchors, count - 1) {
                    Ok(card) => {
                        let all = cards.push(card);
                        assert forall|i: int| 0 <= i < count implies card_at(
                            localizer,
                            page,
                            anchors,
                            i,
                        ) == Ok::<CardView, ScrapeErrorView>(#[trigger] all[i])
                            && all[i].wf() by {
                            if i < before {
                                assert(all[i] == cards[i]);
                            }
                        }
                    },
                    Err(error) => {
                        let first = count - 1;
                        assert forall|i: int| 0 <= i < first implies #[trigger] card_at(
                            localizer,
                            page,
                            anchors,
                            i,
                        ) is Ok by {
                            assert(card_at(localizer, page, anchors, i) == Ok::<
                                CardView,
                                ScrapeErrorView,
                            >(cards[i]));
                        }
                        assert(fails_first_at(localizer, page, anchors, first, error));
                    },
                }
            },
        }
    }
}

/// Once the first `count` links of a list fail, the list fails, with the
/// same error, however many links follow.
pub proof fn lemma_cards_stay_rejected(
    localizer: Localizer,
    page: Seq<char>,
    anchors: Seq<Place>,
    count: nat,
    total: nat,
)
    requires
        count <= total,
    ensures
        cards_upto(localizer, page, anchors, count) is Err ==> cards_upto(
            localizer,
            page,
            anchors,
            total,
        ) == cards_upto(localizer, page, anchors, count),
    decreases total - count,
{
    if count < total {
        lemma_cards_stay_rejected(localizer, page, anchors, count + 1, total);
    }
}

/// The reader of one site's card list.
pub struct OpTcgScraper<'a> {
    base_url: String,
    localizer: &'a Localizer,
}

impl<'a> OpTcgScraper<'a> {
    /// The address that every page of the site starts with.
    pub closed spec fn base_url(&self) -> Seq<char> {
        self.base_url@
    }

    /// The site's words.
    pub closed spec fn localizer(&self) -> Localizer {
        *self.localizer
    }

    /// A reader for the site that `localizer` describes.
    pub fn new(localizer: &'a Localizer) -> (scraper: OpTcgScraper<'a>)
        ensures
            scraper.base_url() == localizer.hostname@,
            scraper.localizer() == *localizer,
    {
        OpTcgScraper { base_url: localizer.hostname.clone(), localizer }
    }

    /// The address of the listing page.
    pub fn cardlist_endpoint(&self) -> (url: String)
        ensures
            url@ == self.base_url() + "/"@ + "cardlist"@,
    {
        let mut url = self.base_url.clone();
        url.append("/");
        url.append("cardlist");
        url
    }

    /// The full address of a picture whose address `img_url` is relative to
    /// the listing page: the first three characters of `img_url` are
    /// dropped and the rest is put behind the site's address.
    pub fn get_img_full_url(&self, img_url: &str) -> (url: String)
        requires
            img_url@.len() >= IMAGE_PREFIX,
        ensures
            url@ == self.base_url() + "/"@ + img_url@.skip(IMAGE_PREFIX as int),
    {
        let short_img_url = skip_chars(img_url, IMAGE_PREFIX);
        let mut url = self.base_url.clone();
        url.append("/");
        url.append(short_img_url);
        url
    }

    /// The full address of the picture of `card`. `None` where the card's
    /// own address of it has fewer than the three characters that are
    /// dropped.
    pub fn card_image_url(&self, card: &Card) -> (url: Option<String>)
        ensures
            match url {
                Some(found) => card@.img_url.len() >= IMAGE_PREFIX && found@ == self.base_url()
                    + "/"@ + card@.img_url.skip(IMAGE_PREFIX as int),
                None => card@.img_url.len() < IMAGE_PREFIX,
            },
    {
        if has_chars(card.img_url.as_str(), IMAGE_PREFIX) {
            Some(self.get_img_full_url(card.img_url.as_str()))
        } else {
            None
        }
    }

    /// Reads the card sets that the listing page `listing` offers: the
    /// entries of its series menu, in the order in which the page is read,
    /// without those that have no identifier. A page of more than
    /// [`PAGE_LIMIT`](crate::markup::PAGE_LIMIT) bytes is not read.
    pub fn read_all_card_sets(&self, listing: &str) -> (sets: Result<Vec<CardSet>, ScrapeError>)
        ensures
            match sets {
                Ok(found) => sets_listed(listing@) == Ok::<Seq<CardSetView>, ScrapeErrorView>(
                    found.deep_view(),
                ),
                Err(error) => sets_listed(listing@) == Err::<Seq<CardSetView>, ScrapeErrorView>(
                    error@,
                ),
            },
            sets matches Ok(found) ==> forall|i: int|
                0 <= i < found.len() ==> (#[trigger] found[i])@.is_selectable(),
    {
        let page = match Page::parse(listing) {
            Some(page) => page,
            None => {
                return Err(ScrapeError::TooLong);
            },
        };
        proof {
            lemma_selectors_fit();
        }
        let query = match Query::parse(SERIES_CSS) {
            Some(query) => query,
            None => {
                return Err(ScrapeError::Selector);
            },
        };
        let options = page.select(&query);
        let ghost all = options.deep_view();
        let mut entries: Vec<CardSet> = Vec::new();
        let mut i: usize = 0;
        while i < options.len()
            invariant
                i <= options.len(),
                all == options.deep_view(),
                entries.deep_view() == all.take(i as int).map_values(
                    |element: Place| CardSetView::of_element(element),
                ),
            decreases options.len() - i,
        {
            let ghost before = entries.deep_view();
            entries.push(CardSet::new(&options[i]));
            assert(all[i as int] == options@[i as int]@);
            assert(entries.deep_view() =~= before.push(CardSetView::of_element(all[i as int])));
            assert(entries.deep_view() =~= all.take(i as int + 1).map_values(
                |element: Place| CardSetView::of_element(element),
            ));
            i += 1;
        }
        assert(all.take(options.len() as int) =~= all);
        let sets = retain_selectable(entries);
        proof {
            lemma_selectable(entries.deep_view());
            assert forall|i: int| 0 <= i < sets.len() implies (
            #[trigger] sets[i])@.is_selectable() by {
                assert(sets.deep_view()[i] == sets[i]@);
            }
        }
        Ok(sets)
    }

    /// Reads the cards that the listing page `listing` shows, in the order
    /// of its links. The first card that cannot be read ends the reading:
    /// its error is returned and none of the cards read before it. A page
    /// of more than [`PAGE_LIMIT`](crate::markup::PAGE_LIMIT) bytes is not
    /// read.
    pub fn read_all_cards(&self, listing: &str) -> (cards: Result<Vec<Card>, ScrapeError>)
        ensures
            match cards {
                Ok(found) => cards_listed(self.localizer(), listing@) == Ok::<
                    Seq<CardView>,
                    ScrapeErrorView,
                >(found.deep_view()),
                Err(error) => cards_listed(self.localizer(), listing@) == Err::<
                    Seq<CardView>,
                    ScrapeErrorView,
                >(error@),
            },
            cards matches Ok(found) ==> forall|i: int|
                0 <= i < found.len() ==> (#[trigger] found[i])@.wf(),
    {
        let page = match Page::parse(listing) {
            Some(page) => page,
            None => {
                return Err(ScrapeError::TooLong);
            },
        };
        proof {
            lemma_selectors_fit();
        }
        let query = match Query::parse(ANCHORS_CSS) {
            Some(query) => query,
            None => {
                return Err(ScrapeError::Selector);
            },
        };
        let selectors = match CardSelectors::parse() {
            Some(selectors) => selectors,
            None => {
                return Err(ScrapeError::Selector);
            },
        };
        let anchors = page.select(&query);
        let ghost all = anchors.deep_view();
        let mut cards: Vec<Card> = Vec::new();
        let mut i: usize = 0;
        assert(cards.deep_view() =~= Seq::<CardView>::empty());
        while i < anchors.len()
            invariant
                i <= anchors.len(),
                page_fits(listing@),
                is_selector(ANCHORS_CSS@),
                CardSelectors::accepted(),
                page@ == listing@,
                all == anchors.deep_view(),
                all == places(listing@, page_matches(listing@, ANCHORS_CSS@)),
                forall|k: int| 0 <= k < cards.len() ==> (#[trigger] cards[k])@.wf(),
                cards_upto(self.localizer(), listing@, all, i as nat) == Ok::<
                    Seq<CardView>,
                    ScrapeErrorView,
                >(cards.deep_view()),
            decreases anchors.len() - i,
        {
            proof {
                lemma_cards_stay_rejected(
                    self.localizer(),
                    listing@,
                    all,
                    (i + 1) as nat,
                    all.len(),
                );
                assert(all[i as int] == anchors@[i as int]@);
            }
            let raw = match anchors[i].attr(IDENTIFIER_ATTRIBUTE) {
                Some(raw) => raw,
                None => {
                    return Err(ScrapeError::Identifier { position: i });
                },
            };
            let card_id = match card_id_from(raw.as_str()) {
                Some(card_id) => card_id,
                None => {
                    return Err(ScrapeError::Identifier { position: i });
                },
            };
            match CardScraper::create_card(self.localizer, &selectors, &page, card_id) {
                Ok(card) => {
                    let ghost before = cards.deep_view();
                    cards.push(card);
                    assert(cards.deep_view() =~= before.push(card@));
                },
                Err(error) => {
                    return Err(ScrapeError::Card(error));
                },
            }
            i += 1;
        }
        Ok(cards)
    }
}

} // verus!
