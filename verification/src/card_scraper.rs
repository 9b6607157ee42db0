//! Reading one card off the piece of a page that describes it.

use crate::card::{Card, CardAttribute, CardCategory, CardColor, CardRarity, CardView};
use crate::error::{
    CardError, CardErrorView, CardField, Cause, CauseView, FieldKind, FieldValidationErrorView,
};
use crate::localizer::Localizer;
use crate::markup::{
    attribute_of, is_selector, page_matches, places, selector_fits, Element, Page, Place, Query,
};
use crate::page::{first_attribute, first_text};
use crate::text::{
    lemma_bytes_of_text, list_items, number_of, parse_number, split_list, str_eq, to_uppercase,
};
use vstd::prelude::*;

verus! {

/// The texts that a page holds for one card, each as it stands in its
/// place, without the blanks around it. `None` where the place is not there.
#[derive(Debug, PartialEq, Eq)]
pub struct CardMarkup {
    pub name: Option<String>,
    pub rarity: Option<String>,
    pub category: Option<String>,
    pub img_url: Option<String>,
    pub colors: Option<String>,
    pub cost: Option<String>,
    pub attributes: Option<String>,
    pub power: Option<String>,
    pub counter: Option<String>,
    pub types: Option<String>,
    pub effect: Option<String>,
    pub trigger: Option<String>,
}

/// What a [`CardMarkup`] holds, as mathematical values.
pub struct CardMarkupView {
    pub name: Option<Seq<char>>,
    pub rarity: Option<Seq<char>>,
    pub category: Option<Seq<char>>,
    pub img_url: Option<Seq<char>>,
    pub colors: Option<Seq<char>>,
    pub cost: Option<Seq<char>>,
    pub attributes: Option<Seq<char>>,
    pub power: Option<Seq<char>>,
    pub counter: Option<Seq<char>>,
    pub types: Option<Seq<char>>,
    pub effect: Option<Seq<char>>,
    pub trigger: Option<Seq<char>>,
}

impl View for CardMarkup {
    type V = CardMarkupView;

    open spec fn view(&self) -> CardMarkupView {
        CardMarkupView {
            name: self.name.deep_view(),
            rarity: self.rarity.deep_view(),
            category: self.category.deep_view(),
            img_url: self.img_url.deep_view(),
            colors: self.colors.deep_view(),
            cost: self.cost.deep_view(),
            attributes: self.attributes.deep_view(),
            power: self.power.deep_view(),
            counter: self.counter.deep_view(),
            types: self.types.deep_view(),
            effect: self.effect.deep_view(),
            trigger: self.trigger.deep_view(),
        }
    }
}

/// A text that must be there: `Missing` where the place is not there or
/// holds nothing.
pub open spec fn required(text: Option<Seq<char>>) -> Result<Seq<char>, CauseView> {
    match text {
        Some(found) => if found.len() > 0 {
            Ok(found)
        } else {
            Err(CauseView::Missing)
        },
        None => Err(CauseView::Missing),
    }
}

fn require(text: &Option<String>) -> (found: Result<String, Cause>)
    ensures
        match found {
            Ok(value) => required(text.deep_view()) == Ok::<Seq<char>, CauseView>(value@),
            Err(cause) => required(text.deep_view()) == Err::<Seq<char>, CauseView>(cause@),
        },
{
    match text {
        Some(value) => {
            if value.as_str().is_empty() {
                Err(Cause::Missing)
            } else {
                Ok(value.clone())
            }
        },
        None => Err(Cause::Missing),
    }
}

/// The cause that rejects `raw` as a value of the field `kind`.
pub open spec fn invalid(kind: FieldKind, raw: Seq<char>) -> CauseView {
    CauseView::Invalid(FieldValidationErrorView { kind, raw })
}

/// Whether the place of a number holds none: the place is not there, or
/// it is empty, or it holds a lone dash.
pub open spec fn unprinted(text: Option<Seq<char>>) -> bool {
    match text {
        None => true,
        Some(found) => found.len() == 0 || found == "-"@,
    }
}

/// A printed number. A place that holds none stands for no number; any
/// other text has to be a number.
pub open spec fn printed_number(text: Option<Seq<char>>) -> Result<Option<i32>, CauseView> {
    if unprinted(text) {
        Ok(None)
    } else {
        match number_of(text->0) {
            Some(number) => Ok(Some(number)),
            None => Err(CauseView::NotANumber(text->0)),
        }
    }
}

/// Reads a printed number.
pub fn read_number(text: &Option<String>) -> (number: Result<Option<i32>, Cause>)
    ensures
        match number {
            Ok(value) => printed_number(text.deep_view()) == Ok::<Option<i32>, CauseView>(value),
            Err(cause) => printed_number(text.deep_view()) == Err::<Option<i32>, CauseView>(
                cause@,
            ),
        },
{
    match text {
        None => Ok(None),
        Some(found) => {
            if found.as_str().is_empty() || str_eq(found.as_str(), "-") {
                Ok(None)
            } else {
                match parse_number(found.as_str()) {
                    Some(number) => Ok(Some(number)),
                    None => Err(Cause::NotANumber(found.clone())),
                }
            }
        },
    }
}

/// The rarity that the text in the rarity's place stands for, the site's
/// own word having been replaced by its code.
pub open spec fn rarity_in(localizer: Localizer, text: Option<Seq<char>>) -> Result<
    CardRarity,
    CauseView,
> {
    match required(text) {
        Err(cause) => Err(cause),
        Ok(found) => match CardRarity::parsed(localizer.code_of(found)) {
            Some(value) => Ok(value),
            None => Err(invalid(FieldKind::Rarity, found)),
        },
    }
}

/// Reads the rarity of a card from the text in its place.
pub fn read_rarity(localizer: &Localizer, text: &Option<String>) -> (value: Result<
    CardRarity,
    Cause,
>)
    ensures
        match value {
            Ok(found) => rarity_in(*localizer, text.deep_view()) == Ok::<CardRarity, CauseView>(
                found,
            ),
            Err(cause) => rarity_in(*localizer, text.deep_view()) == Err::<CardRarity, CauseView>(
                cause@,
            ),
        },
{
    let found = match require(text) {
        Ok(found) => found,
        Err(cause) => {
            return Err(cause);
        },
    };
    let upper = to_uppercase(localizer.lookup(found.as_str()));
    match CardRarity::from_code(upper.as_str(), found.as_str()) {
        Ok(value) => Ok(value),
        Err(error) => Err(Cause::Invalid(error)),
    }
}

/// The category that the text in the category's place stands for, the
/// site's own word having been replaced by its code.
pub open spec fn category_in(localizer: Localizer, text: Option<Seq<char>>) -> Result<
    CardCategory,
    CauseView,
> {
    match required(text) {
        Err(cause) => Err(cause),
        Ok(found) => match CardCategory::parsed(localizer.code_of(found)) {
            Some(value) => Ok(value),
            None => Err(invalid(FieldKind::Category, found)),
        },
    }
}

/// Reads the category of a card from the text in its place.
pub fn read_category(localizer: &Localizer, text: &Option<String>) -> (value: Result<
    CardCategory,
    Cause,
>)
    ensures
        match value {
            Ok(found) => category_in(*localizer, text.deep_view()) == Ok::<
                CardCategory,
                CauseView,
            >(found),
            Err(cause) => category_in(*localizer, text.deep_view()) == Err::<
                CardCategory,
                CauseView,
            >(cause@),
        },
{
    let found = match require(text) {
        Ok(found) => found,
        Err(cause) => {
            return Err(cause);
        },
    };
    let upper = to_uppercase(localizer.lookup(found.as_str()));
    match CardCategory::from_code(upper.as_str(), found.as_str()) {
        Ok(value) => Ok(value),
        Err(error) => Err(Cause::Invalid(error)),
    }
}

/// The colors that the entries `items` stand for, in order. The first
/// entry that is no color rejects the whole list.
pub open spec fn colors_of(localizer: Localizer, items: Seq<Seq<char>>) -> Result<
    Seq<CardColor>,
    CauseView,
>
    decreases items.len(),
{
    if items.len() == 0 {
        Ok(Seq::<CardColor>::empty())
    } else {
        match colors_of(localizer, items.drop_last()) {
            Err(cause) => Err(cause),
            Ok(values) => match CardColor::parsed(localizer.code_of(items.last())) {
                Some(value) => Ok(values.push(value)),
                None => Err(invalid(FieldKind::Color, items.last())),
            },
        }
    }
}

/// The colors of a card: the entries of the list in the colors' place. A
/// place that is not there, and an empty one, stand for no color.
pub open spec fn colors_in(localizer: Localizer, text: Option<Seq<char>>) -> Result<
    Seq<CardColor>,
    CauseView,
> {
    match text {
        None => Ok(Seq::<CardColor>::empty()),
        Some(found) => if found.len() == 0 {
            Ok(Seq::<CardColor>::empty())
        } else {
            colors_of(localizer, list_items(found))
        },
    }
}

/// Reads the colors of a card from the text in their place.
pub fn read_colors(localizer: &Localizer, text: &Option<String>) -> (values: Result<
    Vec<CardColor>,
    Cause,
>)
    ensures
        match values {
            Ok(found) => colors_in(*localizer, text.deep_view()) == Ok::<
                Seq<CardColor>,
                CauseView,
            >(found@),
            Err(cause) => colors_in(*localizer, text.deep_view()) == Err::<
                Seq<CardColor>,
                CauseView,
            >(cause@),
        },
{
    let mut values: Vec<CardColor> = Vec::new();
    let found = match text {
        Some(found) => found,
        None => {
            return Ok(values);
        },
    };
    if found.as_str().is_empty() {
        return Ok(values);
    }
    let items = split_list(found.as_str());
    let ghost all = items.deep_view();
    let mut i: usize = 0;
    assert(all.take(0) =~= Seq::<Seq<char>>::empty());
    while i < items.len()
        invariant
            i <= items.len(),
            all == items.deep_view(),
            all == list_items(found@),
            found@.len() > 0,
            text.deep_view() == Some(found@),
            colors_of(*localizer, all.take(i as int)) == Ok::<Seq<CardColor>, CauseView>(
                values@,
            ),
        decreases items.len() - i,
    {
        proof {
            assert(all.take(i as int + 1).drop_last() =~= all.take(i as int));
            assert(all.take(i as int + 1).last() == items@[i as int]@);
        }
        let upper = to_uppercase(localizer.lookup(items[i].as_str()));
        match CardColor::from_code(upper.as_str(), items[i].as_str()) {
            Ok(value) => {
                values.push(value);
            },
            Err(error) => {
                proof {
                    lemma_colors_stay_rejected(*localizer, all, i as int + 1);
                }
                return Err(Cause::Invalid(error));
            },
        }
        i += 1;
    }
    assert(all.take(items.len() as int) =~= all);
    Ok(values)
}

/// A list whose first `count` entries are rejected is rejected as a whole,
/// and for the same cause.
pub proof fn lemma_colors_stay_rejected(localizer: Localizer, items: Seq<Seq<char>>, count: int)
    requires
        0 <= count <= items.len(),
        colors_of(localizer, items.take(count)) is Err,
    ensures
        colors_of(localizer, items) == colors_of(localizer, items.take(count)),
    decreases items.len() - count,
{
    if count == items.len() {
        assert(items.take(count) =~= items);
    } else {
        assert(items.take(count + 1).drop_last() =~= items.take(count));
        lemma_colors_stay_rejected(localizer, items, count + 1);
    }
}

/// The attributes that the entries `items` stand for, in order. The first
/// entry that is no attribute rejects the whole list.
pub open spec fn attributes_of(localizer: Localizer, items: Seq<Seq<char>>) -> Result<
    Seq<CardAttribute>,
    CauseView,
>
    decreases items.len(),
{
    if items.len() == 0 {
        Ok(Seq::<CardAttribute>::empty())
    } else {
        match attributes_of(localizer, items.drop_last()) {
            Err(cause) => Err(cause),
            Ok(values) => match CardAttribute::parsed(localizer.code_of(items.last())) {
                Some(value) => Ok(values.push(value)),
                None => Err(invalid(FieldKind::Attribute, items.last())),
            },
        }
    }
}

/// The attributes of a card: the entries of the list in the attributes' place. A
/// place that is not there, and an empty one, stand for no attribute.
pub open spec fn attributes_in(localizer: Localizer, text: Option<Seq<char>>) -> Result<
    Seq<CardAttribute>,
    CauseView,
> {
    match text {
        None => Ok(Seq::<CardAttribute>::empty()),
        Some(found) => if found.len() == 0 {
            Ok(Seq::<CardAttribute>::empty())
        } else {
            attributes_of(localizer, list_items(found))
        },
    }
}

/// Reads the attributes of a card from the text in their place.
pub fn read_attributes(localizer: &Localizer, text: &Option<String>) -> (values: Result<
    Vec<CardAttribute>,
    Cause,
>)
    ensures
        match values {
            Ok(found) => attributes_in(*localizer, text.deep_view()) == Ok::<
                Seq<CardAttribute>,
                CauseView,
            >(found@),
            Err(cause) => attributes_in(*localizer, text.deep_view()) == Err::<
                Seq<CardAttribute>,
                CauseView,
            >(cause@),
        },
{
    let mut values: Vec<CardAttribute> = Vec::new();
    let found = match text {
        Some(found) => found,
        None => {
            return Ok(values);
        },
    };
    if found.as_str().is_empty() {
        return Ok(values);
    }
    let items = split_list(found.as_str());
    let ghost all = items.deep_view();
    let mut i: usize = 0;
    assert(all.take(0) =~= Seq::<Seq<char>>::empty());
    while i < items.len()
        invariant
            i <= items.len(),
            all == items.deep_view(),
            all == list_items(found@),
            found@.len() > 0,
            text.deep_view() == Some(found@),
            attributes_of(*localizer, all.take(i as int)) == Ok::<Seq<CardAttribute>, CauseView>(
                values@,
            ),
        decreases items.len() - i,
    {
        proof {
            assert(all.take(i as int + 1).drop_last() =~= all.take(i as int));
            assert(all.take(i as int + 1).last() == items@[i as int]@);
        }
        let upper = to_uppercase(localizer.lookup(items[i].as_str()));
        match CardAttribute::from_code(upper.as_str(), items[i].as_str()) {
            Ok(value) => {
                values.push(value);
            },
            Err(error) => {
                proof {
                    lemma_attributes_stay_rejected(*localizer, all, i as int + 1);
                }
                return Err(Cause::Invalid(error));
            },
        }
        i += 1;
    }
    assert(all.take(items.len() as int) =~= all);
    Ok(values)
}

/// A list whose first `count` entries are rejected is rejected as a whole,
/// and for the same cause.
pub proof fn lemma_attributes_stay_rejected(localizer: Localizer, items: Seq<Seq<char>>, count: int)
    requires
        0 <= count <= items.len(),
        attributes_of(localizer, items.take(count)) is Err,
    ensures
        attributes_of(localizer, items) == attributes_of(localizer, items.take(count)),
    decreases items.len() - count,
{
    if count == items.len() {
        assert(items.take(count) =~= items);
    } else {
        assert(items.take(count + 1).drop_last() =~= items.take(count));
        lemma_attributes_stay_rejected(localizer, items, count + 1);
    }
}

/// The error that names the part `field` of the card `card_id`.
pub open spec fn failed(card_id: Seq<char>, field: CardField, cause: CauseView) -> CardErrorView {
    CardErrorView { card_id, field, cause }
}

/// The entries of the list in the types' place. A place that is not there,
/// and an empty one, stand for no type.
pub open spec fn types_in(text: Option<Seq<char>>) -> Seq<Seq<char>> {
    match text {
        None => Seq::<Seq<char>>::empty(),
        Some(found) => if found.len() == 0 {
            Seq::<Seq<char>>::empty()
        } else {
            list_items(found)
        },
    }
}

/// A text that may be left out: empty where the place is not there.
pub open spec fn text_or_empty(text: Option<Seq<char>>) -> Seq<char> {
    match text {
        Some(found) => found,
        None => Seq::<char>::empty(),
    }
}

/// A text that a card may lack: `None` where the place is not there or
/// holds nothing.
pub open spec fn present(text: Option<Seq<char>>) -> Option<Seq<char>> {
    match text {
        Some(found) => if found.len() > 0 {
            Some(found)
        } else {
            None
        },
        None => None,
    }
}

/// The number in `text` where cards of the category have that number, and
/// no number, whatever the page holds there, where they have not.
pub open spec fn number_if(defined: bool, text: Option<Seq<char>>) -> Result<
    Option<i32>,
    CauseView,
> {
    if defined {
        printed_number(text)
    } else {
        Ok(None)
    }
}

/// The card `card_id` as the texts `markup` describe it, or the first part
/// of it that cannot be read. The parts are read in this order: identifier,
/// name, rarity, category, picture, colors, cost, attributes, power, counter.
pub open spec fn built(localizer: Localizer, card_id: Seq<char>, markup: CardMarkupView) -> Result<
    CardView,
    CardErrorView,
> {
    if card_id.len() == 0 {
        Err(failed(card_id, CardField::Id, CauseView::Missing))
    } else if required(markup.name) is Err {
        Err(failed(card_id, CardField::Name, required(markup.name)->Err_0))
    } else if rarity_in(localizer, markup.rarity) is Err {
        Err(failed(card_id, CardField::Rarity, rarity_in(localizer, markup.rarity)->Err_0))
    } else if category_in(localizer, markup.category) is Err {
        Err(failed(card_id, CardField::Category, category_in(localizer, markup.category)->Err_0))
    } else if required(markup.img_url) is Err {
        Err(failed(card_id, CardField::Image, required(markup.img_url)->Err_0))
    } else if colors_in(localizer, markup.colors) is Err {
        Err(failed(card_id, CardField::Colors, colors_in(localizer, markup.colors)->Err_0))
    } else {
        let category = category_in(localizer, markup.category)->Ok_0;
        let cost = number_if(category.spec_has_cost(), markup.cost);
        let attributes = if category.spec_has_power() {
            attributes_in(localizer, markup.attributes)
        } else {
            Ok(Seq::<CardAttribute>::empty())
        };
        let power = number_if(category.spec_has_power(), markup.power);
        let counter = number_if(category.spec_has_counter(), markup.counter);
        if cost is Err {
            Err(failed(card_id, CardField::Cost, cost->Err_0))
        } else if attributes is Err {
            Err(failed(card_id, CardField::Attributes, attributes->Err_0))
        } else if power is Err {
            Err(failed(card_id, CardField::Power, power->Err_0))
        } else if counter is Err {
            Err(failed(card_id, CardField::Counter, counter->Err_0))
        } else {
            Ok(
                CardView {
                    id: card_id,
                    name: required(markup.name)->Ok_0,
                    rarity: rarity_in(localizer, markup.rarity)->Ok_0,
                    category,
                    img_url: required(markup.img_url)->Ok_0,
                    colors: colors_in(localizer, markup.colors)->Ok_0,
                    cost: cost->Ok_0,
                    attributes: attributes->Ok_0,
                    power: power->Ok_0,
                    counter: counter->Ok_0,
                    types: types_in(markup.types),
                    effect: text_or_empty(markup.effect),
                    trigger: present(markup.trigger),
                },
            )
        }
    }
}

/// A number that the page leaves out is no error: where the place of the
/// cost, the power or the counter holds none, the card that is built has
/// no such number, and a card that is not built fails on another part.
pub proof fn lemma_absent_number_is_none(
    localizer: Localizer,
    card_id: Seq<char>,
    markup: CardMarkupView,
)
    ensures
        unprinted(markup.cost) ==> match built(localizer, card_id, markup) {
            Ok(card) => card.cost is None,
            Err(error) => error.field != CardField::Cost,
        },
        unprinted(markup.power) ==> match built(localizer, card_id, markup) {
            Ok(card) => card.power is None,
            Err(error) => error.field != CardField::Power,
        },
        unprinted(markup.counter) ==> match built(localizer, card_id, markup) {
            Ok(card) => card.counter is None,
            Err(error) => error.field != CardField::Counter,
        },
{
}

fn read_number_if(defined: bool, text: &Option<String>) -> (number: Result<Option<i32>, Cause>)
    ensures
        match number {
            Ok(value) => number_if(defined, text.deep_view()) == Ok::<Option<i32>, CauseView>(
                value,
            ),
            Err(cause) => number_if(defined, text.deep_view()) == Err::<Option<i32>, CauseView>(
                cause@,
            ),
        },
{
    if defined {
        read_number(text)
    } else {
        Ok(None)
    }
}

fn read_types(text: &Option<String>) -> (types: Vec<String>)
    ensures
        types.deep_view() == types_in(text.deep_view()),
{
    match text {
        None => {
            let types: Vec<String> = Vec::new();
            assert(types.deep_view() =~= Seq::<Seq<char>>::empty());
            types
        },
        Some(found) => {
            if found.as_str().is_empty() {
                let types: Vec<String> = Vec::new();
                assert(types.deep_view() =~= Seq::<Seq<char>>::empty());
                types
            } else {
                split_list(found.as_str())
            }
        },
    }
}

fn read_present(text: &Option<String>) -> (found: Option<String>)
    ensures
        found.deep_view() == present(text.deep_view()),
{
    match text {
        Some(value) => {
            if value.as_str().is_empty() {
                None
            } else {
                Some(value.clone())
            }
        },
        None => None,
    }
}

/// The reader of cards.
pub struct CardScraper;

impl CardScraper {
    /// Builds the card `card_id` from the texts that the page holds for it.
    /// The categorical fields go through their parsers and the numbers are
    /// kept only where the card's category defines them. The first part
    /// that cannot be read is reported with the card's identifier.
    pub fn build_card(localizer: &Localizer, card_id: &str, markup: &CardMarkup) -> (card: Result<
        Card,
        CardError,
    >)
        ensures
            match card {
                Ok(found) => built(*localizer, card_id@, markup@) == Ok::<CardView, CardErrorView>(
                    found@,
                ),
                Err(error) => built(*localizer, card_id@, markup@) == Err::<
                    CardView,
                    CardErrorView,
                >(error@),
            },
            card matches Ok(found) ==> found@.wf(),
            card matches Err(error) ==> error.card_id@ == card_id@,
    {
        if card_id.is_empty() {
            return Err(CardError::new(card_id, CardField::Id, Cause::Missing));
        }
        let name = match require(&markup.name) {
            Ok(name) => name,
            Err(cause) => {
                return Err(CardError::new(card_id, CardField::Name, cause));
            },
        };
        let rarity = match read_rarity(localizer, &markup.rarity) {
            Ok(rarity) => rarity,
            Err(cause) => {
                return Err(CardError::new(card_id, CardField::Rarity, cause));
            },
        };
        let category = match read_category(localizer, &markup.category) {
            Ok(category) => category,
            Err(cause) => {
                return Err(CardError::new(card_id, CardField::Category, cause));
            },
        };
        let img_url = match require(&markup.img_url) {
            Ok(img_url) => img_url,
            Err(cause) => {
                return Err(CardError::new(card_id, CardField::Image, cause));
            },
        };
        let colors = match read_colors(localizer, &markup.colors) {
            Ok(colors) => colors,
            Err(cause) => {
                return Err(CardError::new(card_id, CardField::Colors, cause));
            },
        };
        let cost = match read_number_if(category.has_cost(), &markup.cost) {
            Ok(cost) => cost,
            Err(cause) => {
                return Err(CardError::new(card_id, CardField::Cost, cause));
            },
        };
        let attributes = if category.has_power() {
            match read_attributes(localizer, &markup.attributes) {
                Ok(attributes) => attributes,
                Err(cause) => {
                    return Err(CardError::new(card_id, CardField::Attributes, cause));
                },
            }
        } else {
            Vec::new()
        };
        let power = match read_number_if(category.has_power(), &markup.power) {
            Ok(power) => power,
            Err(cause) => {
                return Err(CardError::new(card_id, CardField::Power, cause));
            },
        };
        let counter = match read_number_if(category.has_counter(), &markup.counter) {
            Ok(counter) => counter,
            Err(cause) => {
                return Err(CardError::new(card_id, CardField::Counter, cause));
            },
        };
        let effect = match &markup.effect {
            Some(effect) => effect.clone(),
            None => String::new(),
        };
        Ok(
            Card {
                id: card_id.to_owned(),
                name,
                rarity,
                category,
                img_url,
                colors,
                cost,
                attributes,
                power,
                counter,
                types: read_types(&markup.types),
                effect,
                trigger: read_present(&markup.trigger),
            },
        )
    }
}

/// Where a page holds the piece that describes one card.
pub const FRAGMENT_CSS: &'static str = "dl.modalCol";

/// Where a page holds the name.
pub const NAME_CSS: &'static str = "div.cardName";

/// Where a page holds the rarity.
pub const RARITY_CSS: &'static str = "div.infoCol>span:nth-child(2)";

/// Where a page holds the category.
pub const CATEGORY_CSS: &'static str = "div.infoCol>span:nth-child(3)";

/// Where a page holds the picture.
pub const IMAGE_CSS: &'static str = "div.frontCol>img";

/// Where a page holds the colors.
pub const COLORS_CSS: &'static str = "div.color";

/// Where a page holds the cost.
pub const COST_CSS: &'static str = "div.cost";

/// Where a page holds the attributes.
pub const ATTRIBUTES_CSS: &'static str = "div.attribute>i";

/// Where a page holds the power.
pub const POWER_CSS: &'static str = "div.power";

/// Where a page holds the counter.
pub const COUNTER_CSS: &'static str = "div.counter";

/// Where a page holds the types.
pub const TYPES_CSS: &'static str = "div.feature";

/// Where a page holds the effect.
pub const EFFECT_CSS: &'static str = "div.text";

/// Where a page holds the trigger.
pub const TRIGGER_CSS: &'static str = "div.trigger";

/// The attribute that carries the address of a card's picture.
pub const IMAGE_ATTRIBUTE: &'static str = "data-src";

/// The attribute by which a card's piece of the page is found.
pub const FRAGMENT_ATTRIBUTE: &'static str = "id";

/// The texts of the selectors are short enough to be read.
proof fn lemma_selectors_fit()
    ensures
        selector_fits(FRAGMENT_CSS@),
        selector_fits(NAME_CSS@),
        selector_fits(RARITY_CSS@),
        selector_fits(CATEGORY_CSS@),
        selector_fits(IMAGE_CSS@),
        selector_fits(COLORS_CSS@),
        selector_fits(COST_CSS@),
        selector_fits(ATTRIBUTES_CSS@),
        selector_fits(POWER_CSS@),
        selector_fits(COUNTER_CSS@),
        selector_fits(TYPES_CSS@),
        selector_fits(EFFECT_CSS@),
        selector_fits(TRIGGER_CSS@),
{
    reveal_strlit("dl.modalCol");
    lemma_bytes_of_text(FRAGMENT_CSS@);
    reveal_strlit("div.cardName");
    lemma_bytes_of_text(NAME_CSS@);
    reveal_strlit("div.infoCol>span:nth-child(2)");
    lemma_bytes_of_text(RARITY_CSS@);
    reveal_strlit("div.infoCol>span:nth-child(3)");
    lemma_bytes_of_text(CATEGORY_CSS@);
    reveal_strlit("div.frontCol>img");
    lemma_bytes_of_text(IMAGE_CSS@);
    reveal_strlit("div.color");
    lemma_bytes_of_text(COLORS_CSS@);
    reveal_strlit("div.cost");
    lemma_bytes_of_text(COST_CSS@);
    reveal_strlit("div.attribute>i");
    lemma_bytes_of_text(ATTRIBUTES_CSS@);
    reveal_strlit("div.power");
    lemma_bytes_of_text(POWER_CSS@);
    reveal_strlit("div.counter");
    lemma_bytes_of_text(COUNTER_CSS@);
    reveal_strlit("div.feature");
    lemma_bytes_of_text(TYPES_CSS@);
    reveal_strlit("div.text");
    lemma_bytes_of_text(EFFECT_CSS@);
    reveal_strlit("div.trigger");
    lemma_bytes_of_text(TRIGGER_CSS@);
}

/// The selectors that a card is read with, each read once from its text.
pub struct CardSelectors {
    fragment: Query,
    name: Query,
    rarity: Query,
    category: Query,
    image: Query,
    colors: Query,
    cost: Query,
    attributes: Query,
    power: Query,
    counter: Query,
    types: Query,
    effect: Query,
    trigger: Query,
}

impl CardSelectors {
    #[verifier::type_invariant]
    spec fn matches_texts(self) -> bool {
        &&& self.fragment@ == FRAGMENT_CSS@
        &&& self.name@ == NAME_CSS@
        &&& self.rarity@ == RARITY_CSS@
        &&& self.category@ == CATEGORY_CSS@
        &&& self.image@ == IMAGE_CSS@
        &&& self.colors@ == COLORS_CSS@
        &&& self.cost@ == COST_CSS@
        &&& self.attributes@ == ATTRIBUTES_CSS@
        &&& self.power@ == POWER_CSS@
        &&& self.counter@ == COUNTER_CSS@
        &&& self.types@ == TYPES_CSS@
        &&& self.effect@ == EFFECT_CSS@
        &&& self.trigger@ == TRIGGER_CSS@
    }

    /// Whether the HTML library reads every one of the texts as a selector.
    pub open spec fn accepted() -> bool {
        &&& is_selector(FRAGMENT_CSS@)
        &&& is_selector(NAME_CSS@)
        &&& is_selector(RARITY_CSS@)
        &&& is_selector(CATEGORY_CSS@)
        &&& is_selector(IMAGE_CSS@)
        &&& is_selector(COLORS_CSS@)
        &&& is_selector(COST_CSS@)
        &&& is_selector(ATTRIBUTES_CSS@)
        &&& is_selector(POWER_CSS@)
        &&& is_selector(COUNTER_CSS@)
        &&& is_selector(TYPES_CSS@)
        &&& is_selector(EFFECT_CSS@)
        &&& is_selector(TRIGGER_CSS@)
    }

    /// Reads the selectors from their texts. `None` where the HTML library
    /// rejects one of them.
    pub fn parse() -> (selectors: Option<CardSelectors>)
        ensures
            selectors is Some <==> Self::accepted(),
    {
        proof {
            lemma_selectors_fit();
        }
        let fragment = match Query::parse(FRAGMENT_CSS) {
            Some(query) => query,
            None => {
                return None;
            },
        };
        let name = match Query::parse(NAME_CSS) {
            Some(query) => query,
            None => {
                return None;
            },
        };
        let rarity = match Query::parse(RARITY_CSS) {
            Some(query) => query,
            None => {
                return None;
            },
        };
        let category = match Query::parse(CATEGORY_CSS) {
            Some(query) => query,
            None => {
                return None;
            },
        };
        let image = match Query::parse(IMAGE_CSS) {
            Some(query) => query,
            None => {
                return None;
            },
        };
        let colors = match Query::parse(COLORS_CSS) {
            Some(query) => query,
            None => {
                return None;
            },
        };
        let cost = match Query::parse(COST_CSS) {
            Some(query) => query,
            None => {
                return None;
            },
        };
        let attributes = match Query::parse(ATTRIBUTES_CSS) {
            Some(query) => query,
            None => {
                return None;
            },
        };
        let power = match Query::parse(POWER_CSS) {
            Some(query) => query,
            None => {
                return None;
            },
        };
        let counter = match Query::parse(COUNTER_CSS) {
            Some(query) => query,
            None => {
                return None;
            },
        };
        let types = match Query::parse(TYPES_CSS) {
            Some(query) => query,
            None => {
                return None;
            },
        };
        let effect = match Query::parse(EFFECT_CSS) {
            Some(query) => query,
            None => {
                return None;
            },
        };
        let trigger = match Query::parse(TRIGGER_CSS) {
            Some(query) => query,
            None => {
                return None;
            },
        };
        Some(
            CardSelectors {
                fragment,
                name,
                rarity,
                category,
                image,
                colors,
                cost,
                attributes,
                power,
                counter,
                types,
                effect,
                trigger,
            },
        )
    }
}

/// The texts that the piece `fragment` of a page holds for its card.
pub open spec fn markup_of(fragment: Place) -> CardMarkupView {
    CardMarkupView {
        name: first_text(fragment, NAME_CSS@),
        rarity: first_text(fragment, RARITY_CSS@),
        category: first_text(fragment, CATEGORY_CSS@),
        img_url: first_attribute(fragment, IMAGE_CSS@, IMAGE_ATTRIBUTE@),
        colors: first_text(fragment, COLORS_CSS@),
        cost: first_text(fragment, COST_CSS@),
        attributes: first_text(fragment, ATTRIBUTES_CSS@),
        power: first_text(fragment, POWER_CSS@),
        counter: first_text(fragment, COUNTER_CSS@),
        types: first_text(fragment, TYPES_CSS@),
        effect: first_text(fragment, EFFECT_CSS@),
        trigger: first_text(fragment, TRIGGER_CSS@),
    }
}

/// The first of `fragments` that carries `card_id` as its identifier.
pub open spec fn fragment_among(fragments: Seq<Place>, card_id: Seq<char>) -> Option<Place>
    decreases fragments.len(),
{
    if fragments.len() == 0 {
        None
    } else if attribute_of(fragments.first(), FRAGMENT_ATTRIBUTE@) == Some(card_id) {
        Some(fragments.first())
    } else {
        fragment_among(fragments.drop_first(), card_id)
    }
}

/// The texts that the page parsed from `page` holds for the card
/// `card_id`: those of the first piece that carries the identifier. `None`
/// where no piece carries it.
pub open spec fn markup_on(page: Seq<char>, card_id: Seq<char>) -> Option<CardMarkupView> {
    match fragment_among(places(page, page_matches(page, FRAGMENT_CSS@)), card_id) {
        Some(fragment) => Some(markup_of(fragment)),
        None => None,
    }
}

/// The card `card_id` as the page parsed from `page` describes it: built
/// from the texts that the page holds for it, and an error that names the
/// card's piece where the page has none for it.
pub open spec fn created(localizer: Localizer, page: Seq<char>, card_id: Seq<char>) -> Result<
    CardView,
    CardErrorView,
> {
    match markup_on(page, card_id) {
        None => Err(failed(card_id, CardField::Fragment, CauseView::Missing)),
        Some(markup) => built(localizer, card_id, markup),
    }
}

/// A card that cannot be read is reported under its own identifier, and a
/// card that is read has an identifier and a name, and a number only where
/// its category defines it.
pub proof fn lemma_created(localizer: Localizer, page: Seq<char>, card_id: Seq<char>)
    ensures
        match created(localizer, page, card_id) {
            Ok(card) => card.id == card_id && card.wf(),
            Err(error) => error.card_id == card_id,
        },
{
}

impl CardScraper {
    /// Reads the texts that the piece `fragment` of a page holds for its
    /// card.
    pub fn read_markup(selectors: &CardSelectors, fragment: &Element<'_>) -> (markup: CardMarkup)
        ensures
            markup@ == markup_of(fragment@),
    {
        proof {
            use_type_invariant(selectors);
        }
        CardMarkup {
            name: fragment.read_text(&selectors.name),
            rarity: fragment.read_text(&selectors.rarity),
            category: fragment.read_text(&selectors.category),
            img_url: fragment.read_attribute(&selectors.image, IMAGE_ATTRIBUTE),
            colors: fragment.read_text(&selectors.colors),
            cost: fragment.read_text(&selectors.cost),
            attributes: fragment.read_text(&selectors.attributes),
            power: fragment.read_text(&selectors.power),
            counter: fragment.read_text(&selectors.counter),
            types: fragment.read_text(&selectors.types),
            effect: fragment.read_text(&selectors.effect),
            trigger: fragment.read_text(&selectors.trigger),
        }
    }

    /// Looks on `page` for the piece that carries `card_id` and reads the
    /// texts that it holds. `None` where no piece carries the identifier.
    pub fn find_markup(selectors: &CardSelectors, page: &Page, card_id: &str) -> (markup: Option<
        CardMarkup,
    >)
        ensures
            match markup {
                Some(found) => markup_on(page@, card_id@) == Some(found@),
                None => markup_on(page@, card_id@) is None,
            },
    {
        proof {
            use_type_invariant(selectors);
        }
        let fragments = page.select(&selectors.fragment);
        let ghost all = fragments.deep_view();
        let mut i: usize = 0;
        assert(all.skip(0) =~= all);
        while i < fragments.len()
            invariant
                i <= fragments.len(),
                all == fragments.deep_view(),
                all == places(page@, page_matches(page@, FRAGMENT_CSS@)),
                fragment_among(all, card_id@) == fragment_among(all.skip(i as int), card_id@),
            decreases fragments.len() - i,
        {
            assert(all.skip(i as int).first() == fragments@[i as int]@);
            let carried = fragments[i].attr(FRAGMENT_ATTRIBUTE);
            let is_it = match &carried {
                Some(identifier) => str_eq(identifier.as_str(), card_id),
                None => false,
            };
            if is_it {
                return Some(Self::read_markup(selectors, &fragments[i]));
            }
            assert(all.skip(i as int).drop_first() =~= all.skip(i as int + 1));
            i += 1;
        }
        None
    }

    /// Reads the card `card_id` off `page`.
    pub fn create_card(
        localizer: &Localizer,
        selectors: &CardSelectors,
        page: &Page,
        card_id: &str,
    ) -> (card: Result<Card, CardError>)
        ensures
            match card {
                Ok(found) => created(*localizer, page@, card_id@) == Ok::<CardView, CardErrorView>(
                    found@,
                ),
                Err(error) => created(*localizer, page@, card_id@) == Err::<
                    CardView,
                    CardErrorView,
                >(error@),
            },
            card matches Ok(found) ==> found@.wf(),
            card matches Err(error) ==> error.card_id@ == card_id@,
    {
        match Self::find_markup(selectors, page, card_id) {
            Some(markup) => Self::build_card(localizer, card_id, &markup),
            None => Err(CardError::new(card_id, CardField::Fragment, Cause::Missing)),
        }
    }
}

} // verus!
