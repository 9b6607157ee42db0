//! The card and the closed sets of values that its categorical fields take.
//! Each set has a parser that accepts the known codes, whatever their case,
//! and rejects every other text.

use crate::error::{FieldKind, FieldValidationError};
use crate::text::{str_eq, to_uppercase, uppercase_of};
use std::cmp::Ordering;
use vstd::prelude::*;
use vstd::std_specs::cmp::{PartialOrdIs, PartialOrdSpecImpl};
use vstd::string::StringExecFns;

verus! {

/// The color of a card.
#[derive(Clone, Copy, Debug, PartialEq, Eq, Structural)]
pub enum CardColor {
    Red,
    Green,
    Blue,
    Purple,
    Black,
    Yellow,
}

impl CardColor {
    /// The code of the color: its name in capitals.
    pub open spec fn spec_code(self) -> Seq<char> {
        match self {
            CardColor::Red => "RED"@,
            CardColor::Green => "GREEN"@,
            CardColor::Blue => "BLUE"@,
            CardColor::Purple => "PURPLE"@,
            CardColor::Black => "BLACK"@,
            CardColor::Yellow => "YELLOW"@,
        }
    }

    /// The color that `code` stands for, if it is the code of one.
    pub open spec fn of_code(code: Seq<char>) -> Option<CardColor> {
        if code == "RED"@ {
            Some(CardColor::Red)
        } else if code == "GREEN"@ {
            Some(CardColor::Green)
        } else if code == "BLUE"@ {
            Some(CardColor::Blue)
        } else if code == "PURPLE"@ {
            Some(CardColor::Purple)
        } else if code == "BLACK"@ {
            Some(CardColor::Black)
        } else if code == "YELLOW"@ {
            Some(CardColor::Yellow)
        } else {
            None
        }
    }

    /// The color that the text `value` is read as: the one whose code is the
    /// uppercase form of `value`.
    pub open spec fn parsed(value: Seq<char>) -> Option<CardColor> {
        Self::of_code(uppercase_of(value))
    }

    /// The code of the color.
    pub fn code(self) -> (code: &'static str)
        ensures
            code@ == self.spec_code(),
    {
        match self {
            CardColor::Red => "RED",
            CardColor::Green => "GREEN",
            CardColor::Blue => "BLUE",
            CardColor::Purple => "PURPLE",
            CardColor::Black => "BLACK",
            CardColor::Yellow => "YELLOW",
        }
    }

    /// Reads a color from `code`, the uppercase form of the text `raw`.
    /// A text that is no code is rejected with an error that keeps `raw`.
    pub fn from_code(code: &str, raw: &str) -> (parsed: Result<CardColor, FieldValidationError>)
        ensures
            match Self::of_code(code@) {
                Some(color) => parsed == Ok::<CardColor, FieldValidationError>(color),
                None => parsed matches Err(error) && error.kind == FieldKind::Color && error.raw@
                    == raw@,
            },
    {
        if str_eq(code, "RED") {
            Ok(CardColor::Red)
        } else if str_eq(code, "GREEN") {
            Ok(CardColor::Green)
        } else if str_eq(code, "BLUE") {
            Ok(CardColor::Blue)
        } else if str_eq(code, "PURPLE") {
            Ok(CardColor::Purple)
        } else if str_eq(code, "BLACK") {
            Ok(CardColor::Black)
        } else if str_eq(code, "YELLOW") {
            Ok(CardColor::Yellow)
        } else {
            Err(FieldValidationError::new(FieldKind::Color, raw))
        }
    }

    /// Reads a color from `value`, whatever the case of its letters.
    pub fn from_str(value: &str) -> (parsed: Result<CardColor, FieldValidationError>)
        ensures
            match Self::parsed(value@) {
                Some(color) => parsed == Ok::<CardColor, FieldValidationError>(color),
                None => parsed matches Err(error) && error.kind == FieldKind::Color && error.raw@
                    == value@,
            },
    {
        let upper = to_uppercase(value);
        Self::from_code(upper.as_str(), value)
    }
}

/// The style of a card's illustration.
#[derive(Clone, Copy, Debug, PartialEq, Eq, Structural)]
pub enum CardIllustration {
    Comic,
    Animation,
    Original,
    Other,
}

/// The attribute of a leader or a character.
#[derive(Clone, Copy, Debug, PartialEq, Eq, Structural)]
pub enum CardAttribute {
    Slash,
    Strike,
    Ranged,
    Special,
    Wisdom,
}

impl CardAttribute {
    /// The code of the attribute.
    pub open spec fn spec_code(self) -> Seq<char> {
        match self {
            CardAttribute::Slash => "SLASH"@,
            CardAttribute::Strike => "STRIKE"@,
            CardAttribute::Ranged => "RANGED"@,
            CardAttribute::Special => "SPECIAL"@,
            CardAttribute::Wisdom => "WISDOM"@,
        }
    }

    /// The attribute that `code` stands for, if it is the code of one.
    pub open spec fn of_code(code: Seq<char>) -> Option<CardAttribute> {
        if code == "SLASH"@ {
            Some(CardAttribute::Slash)
        } else if code == "STRIKE"@ {
            Some(CardAttribute::Strike)
        } else if code == "RANGED"@ {
            Some(CardAttribute::Ranged)
        } else if code == "SPECIAL"@ {
            Some(CardAttribute::Special)
        } else if code == "WISDOM"@ {
            Some(CardAttribute::Wisdom)
        } else {
            None
        }
    }

    /// The attribute that the text `value` is read as: the one whose code is
    /// the uppercase form of `value`.
    pub open spec fn parsed(value: Seq<char>) -> Option<CardAttribute> {
        Self::of_code(uppercase_of(value))
    }

    /// The code of the attribute.
    pub fn code(self) -> (code: &'static str)
        ensures
            code@ == self.spec_code(),
    {
        match self {
            CardAttribute::Slash => "SLASH",
            CardAttribute::Strike => "STRIKE",
            CardAttribute::Ranged => "RANGED",
            CardAttribute::Special => "SPECIAL",
            CardAttribute::Wisdom => "WISDOM",
        }
    }

    /// Reads an attribute from `code`, the uppercase form of the text `raw`.
    /// A text that is no code is rejected with an error that keeps `raw`.
    pub fn from_code(code: &str, raw: &str) -> (parsed: Result<CardAttribute, FieldValidationError>)
        ensures
            match Self::of_code(code@) {
                Some(value) => parsed == Ok::<CardAttribute, FieldValidationError>(value),
                None => parsed matches Err(error) && error.kind == FieldKind::Attribute
                    && error.raw@ == raw@,
            },
    {
        if str_eq(code, "SLASH") {
            Ok(CardAttribute::Slash)
        } else if str_eq(code, "STRIKE") {
            Ok(CardAttribute::Strike)
        } else if str_eq(code, "RANGED") {
            Ok(CardAttribute::Ranged)
        } else if str_eq(code, "SPECIAL") {
            Ok(CardAttribute::Special)
        } else if str_eq(code, "WISDOM") {
            Ok(CardAttribute::Wisdom)
        } else {
            Err(FieldValidationError::new(FieldKind::Attribute, raw))
        }
    }

    /// Reads an attribute from `value`, whatever the case of its letters.
    pub fn from_str(value: &str) -> (parsed: Result<CardAttribute, FieldValidationError>)
        ensures
            match Self::parsed(value@) {
                Some(value) => parsed == Ok::<CardAttribute, FieldValidationError>(value),
                None => parsed matches Err(error) && error.kind == FieldKind::Attribute
                    && error.raw@ == value@,
            },
    {
        let upper = to_uppercase(value);
        Self::from_code(upper.as_str(), value)
    }
}

/// The category of a card. It decides which of the printed numbers a card
/// has.
#[derive(Clone, Copy, Debug, PartialEq, Eq, Structural)]
pub enum CardCategory {
    Leader,
    Character,
    Event,
    Stage,
    Don,
}

impl CardCategory {
    /// The code of the category.
    pub open spec fn spec_code(self) -> Seq<char> {
        match self {
            CardCategory::Leader => "LEADER"@,
            CardCategory::Character => "CHARACTER"@,
            CardCategory::Event => "EVENT"@,
            CardCategory::Stage => "STAGE"@,
            CardCategory::Don => "DON"@,
        }
    }

    /// The category that `code` stands for, if it is the code of one.
    pub open spec fn of_code(code: Seq<char>) -> Option<CardCategory> {
        if code == "LEADER"@ {
            Some(CardCategory::Leader)
        } else if code == "CHARACTER"@ {
            Some(CardCategory::Character)
        } else if code == "EVENT"@ {
            Some(CardCategory::Event)
        } else if code == "STAGE"@ {
            Some(CardCategory::Stage)
        } else if code == "DON"@ {
            Some(CardCategory::Don)
        } else {
            None
        }
    }

    /// The category that the text `value` is read as: the one whose code is
    /// the uppercase form of `value`.
    pub open spec fn parsed(value: Seq<char>) -> Option<CardCategory> {
        Self::of_code(uppercase_of(value))
    }

    /// The code of the category.
    pub fn code(self) -> (code: &'static str)
        ensures
            code@ == self.spec_code(),
    {
        match self {
            CardCategory::Leader => "LEADER",
            CardCategory::Character => "CHARACTER",
            CardCategory::Event => "EVENT",
            CardCategory::Stage => "STAGE",
            CardCategory::Don => "DON",
        }
    }

    /// Reads a category from `code`, the uppercase form of the text `raw`.
    /// A text that is no code is rejected with an error that keeps `raw`.
    pub fn from_code(code: &str, raw: &str) -> (parsed: Result<CardCategory, FieldValidationError>)
        ensures
            match Self::of_code(code@) {
                Some(value) => parsed == Ok::<CardCategory, FieldValidationError>(value),
                None => parsed matches Err(error) && error.kind == FieldKind::Category
                    && error.raw@ == raw@,
            },
    {
        if str_eq(code, "LEADER") {
            Ok(CardCategory::Leader)
        } else if str_eq(code, "CHARACTER") {
            Ok(CardCategory::Character)
        } else if str_eq(code, "EVENT") {
            Ok(CardCategory::Event)
        } else if str_eq(code, "STAGE") {
            Ok(CardCategory::Stage)
        } else if str_eq(code, "DON") {
            Ok(CardCategory::Don)
        } else {
            Err(FieldValidationError::new(FieldKind::Category, raw))
        }
    }

    /// Reads a category from `value`, whatever the case of its letters.
    pub fn from_str(value: &str) -> (parsed: Result<CardCategory, FieldValidationError>)
        ensures
            match Self::parsed(value@) {
                Some(value) => parsed == Ok::<CardCategory, FieldValidationError>(value),
                None => parsed matches Err(error) && error.kind == FieldKind::Category
                    && error.raw@ == value@,
            },
    {
        let upper = to_uppercase(value);
        Self::from_code(upper.as_str(), value)
    }

    /// Whether cards of this category have a cost: characters, events and
    /// stages. What a leader prints in that place is its life.
    #[verifier::when_used_as_spec(spec_has_cost)]
    pub fn has_cost(self) -> (has: bool)
        ensures
            has == self.spec_has_cost(),
    {
        match self {
            CardCategory::Character | CardCategory::Event | CardCategory::Stage => true,
            CardCategory::Leader | CardCategory::Don => false,
        }
    }

    pub open spec fn spec_has_cost(self) -> bool {
        self == CardCategory::Character || self == CardCategory::Event || self
            == CardCategory::Stage
    }

    /// Whether cards of this category have a power, and attributes: leaders
    /// and characters.
    #[verifier::when_used_as_spec(spec_has_power)]
    pub fn has_power(self) -> (has: bool)
        ensures
            has == self.spec_has_power(),
    {
        match self {
            CardCategory::Leader | CardCategory::Character => true,
            CardCategory::Event | CardCategory::Stage | CardCategory::Don => false,
        }
    }

    pub open spec fn spec_has_power(self) -> bool {
        self == CardCategory::Leader || self == CardCategory::Character
    }

    /// Whether cards of this category have a counter: characters only.
    #[verifier::when_used_as_spec(spec_has_counter)]
    pub fn has_counter(self) -> (has: bool)
        ensures
            has == self.spec_has_counter(),
    {
        match self {
            CardCategory::Character => true,
            CardCategory::Leader | CardCategory::Event | CardCategory::Stage
            | CardCategory::Don => false,
        }
    }

    pub open spec fn spec_has_counter(self) -> bool {
        self == CardCategory::Character
    }
}

/// The rarity of a card. The variants stand in rising order of their
/// ordinal, from `Common` (0) to `Promo` (8), and rarities are compared and
/// sorted in that order.
#[derive(Clone, Copy, Debug, PartialEq, Eq, Ord, Structural)]
pub enum CardRarity {
    Common,
    Uncommon,
    Rare,
    SuperRare,
    SecretRare,
    Leader,
    Special,
    TreasureRare,
    Promo,
}

impl CardRarity {
    /// The code of the rarity.
    pub open spec fn spec_code(self) -> Seq<char> {
        match self {
            CardRarity::Common => "C"@,
            CardRarity::Uncommon => "UC"@,
            CardRarity::Rare => "R"@,
            CardRarity::SuperRare => "SR"@,
            CardRarity::SecretRare => "SEC"@,
            CardRarity::Leader => "L"@,
            CardRarity::Special => "SP CARD"@,
            CardRarity::TreasureRare => "TR"@,
            CardRarity::Promo => "P"@,
        }
    }

    /// The rarity that `code` stands for, if it is the code of one.
    pub open spec fn of_code(code: Seq<char>) -> Option<CardRarity> {
        if code == "C"@ {
            Some(CardRarity::Common)
        } else if code == "UC"@ {
            Some(CardRarity::Uncommon)
        } else if code == "R"@ {
            Some(CardRarity::Rare)
        } else if code == "SR"@ {
            Some(CardRarity::SuperRare)
        } else if code == "SEC"@ {
            Some(CardRarity::SecretRare)
        } else if code == "L"@ {
            Some(CardRarity::Leader)
        } else if code == "SP CARD"@ {
            Some(CardRarity::Special)
        } else if code == "TR"@ {
            Some(CardRarity::TreasureRare)
        } else if code == "P"@ {
            Some(CardRarity::Promo)
        } else {
            None
        }
    }

    /// The rarity that the text `value` is read as: the one whose code is
    /// the uppercase form of `value`.
    pub open spec fn parsed(value: Seq<char>) -> Option<CardRarity> {
        Self::of_code(uppercase_of(value))
    }

    /// The code of the rarity.
    pub fn code(self) -> (code: &'static str)
        ensures
            code@ == self.spec_code(),
    {
        match self {
            CardRarity::Common => "C",
            CardRarity::Uncommon => "UC",
            CardRarity::Rare => "R",
            CardRarity::SuperRare => "SR",
            CardRarity::SecretRare => "SEC",
            CardRarity::Leader => "L",
            CardRarity::Special => "SP CARD",
            CardRarity::TreasureRare => "TR",
            CardRarity::Promo => "P",
        }
    }

    /// Reads a rarity from `code`, the uppercase form of the text `raw`.
    /// A text that is no code is rejected with an error that keeps `raw`.
    pub fn from_code(code: &str, raw: &str) -> (parsed: Result<CardRarity, FieldValidationError>)
        ensures
            match Self::of_code(code@) {
                Some(value) => parsed == Ok::<CardRarity, FieldValidationError>(value),
                None => parsed matches Err(error) && error.kind == FieldKind::Rarity
                    && error.raw@ == raw@,
            },
    {
        if str_eq(code, "C") {
            Ok(CardRarity::Common)
        } else if str_eq(code, "UC") {
            Ok(CardRarity::Uncommon)
        } else if str_eq(code, "R") {
            Ok(CardRarity::Rare)
        } else if str_eq(code, "SR") {
            Ok(CardRarity::SuperRare)
        } else if str_eq(code, "SEC") {
            Ok(CardRarity::SecretRare)
        } else if str_eq(code, "L") {
            Ok(CardRarity::Leader)
        } else if str_eq(code, "SP CARD") {
            Ok(CardRarity::Special)
        } else if str_eq(code, "TR") {
            Ok(CardRarity::TreasureRare)
        } else if str_eq(code, "P") {
            Ok(CardRarity::Promo)
        } else {
            Err(FieldValidationError::new(FieldKind::Rarity, raw))
        }
    }

    /// Reads a rarity from `value`, whatever the case of its letters.
    pub fn from_str(value: &str) -> (parsed: Result<CardRarity, FieldValidationError>)
        ensures
            match Self::parsed(value@) {
                Some(value) => parsed == Ok::<CardRarity, FieldValidationError>(value),
                None => parsed matches Err(error) && error.kind == FieldKind::Rarity
                    && error.raw@ == value@,
            },
    {
        let upper = to_uppercase(value);
        Self::from_code(upper.as_str(), value)
    }

    /// The place of the rarity in the order of rarities.
    pub open spec fn spec_ordinal(self) -> u8 {
        match self {
            CardRarity::Common => 0,
            CardRarity::Uncommon => 1,
            CardRarity::Rare => 2,
            CardRarity::SuperRare => 3,
            CardRarity::SecretRare => 4,
            CardRarity::Leader => 5,
            CardRarity::Special => 6,
            CardRarity::TreasureRare => 7,
            CardRarity::Promo => 8,
        }
    }

    /// The place of the rarity in the order of rarities.
    #[verifier::when_used_as_spec(spec_ordinal)]
    pub fn ordinal(self) -> (ordinal: u8)
        ensures
            ordinal == self.spec_ordinal(),
    {
        match self {
            CardRarity::Common => 0,
            CardRarity::Uncommon => 1,
            CardRarity::Rare => 2,
            CardRarity::SuperRare => 3,
            CardRarity::SecretRare => 4,
            CardRarity::Leader => 5,
            CardRarity::Special => 6,
            CardRarity::TreasureRare => 7,
            CardRarity::Promo => 8,
        }
    }

    /// How `self` stands to `other` in the order of rarities.
    pub open spec fn compared(self, other: CardRarity) -> Ordering {
        if self.spec_ordinal() < other.spec_ordinal() {
            Ordering::Less
        } else if self.spec_ordinal() == other.spec_ordinal() {
            Ordering::Equal
        } else {
            Ordering::Greater
        }
    }
}

impl PartialOrd for CardRarity {
    fn partial_cmp(&self, other: &CardRarity) -> (order: Option<Ordering>) {
        let a: u8 = self.ordinal();
        let b: u8 = other.ordinal();
        if a < b {
            Some(Ordering::Less)
        } else if a == b {
            Some(Ordering::Equal)
        } else {
            Some(Ordering::Greater)
        }
    }
}

impl PartialOrdSpecImpl for CardRarity {
    open spec fn obeys_partial_cmp_spec() -> bool {
        true
    }

    open spec fn partial_cmp_spec(&self, other: &CardRarity) -> Option<Ordering> {
        Some(self.compared(*other))
    }
}

/// Every rarity is read back from its own code, and a text is read as a
/// rarity only if it is that rarity's code. Two texts with the same
/// uppercase form are read alike.
pub proof fn lemma_rarity_codes(rarity: CardRarity, code: Seq<char>, other: Seq<char>)
    ensures
        CardRarity::of_code(rarity.spec_code()) == Some(rarity),
        CardRarity::of_code(code) == Some(rarity) <==> code == rarity.spec_code(),
        uppercase_of(code) == uppercase_of(other) ==> CardRarity::parsed(code)
            == CardRarity::parsed(other),
        CardRarity::parsed(code) == Some(rarity) <==> uppercase_of(code) == rarity.spec_code(),
{
    reveal_strlit("C");
    reveal_strlit("UC");
    reveal_strlit("R");
    reveal_strlit("SR");
    reveal_strlit("SEC");
    reveal_strlit("L");
    reveal_strlit("SP CARD");
    reveal_strlit("TR");
    reveal_strlit("P");
    assert("C"@.len() == 1 && "R"@.len() == 1 && "L"@.len() == 1 && "P"@.len() == 1);
    assert("C"@[0] == 'C' && "R"@[0] == 'R' && "L"@[0] == 'L' && "P"@[0] == 'P');
    assert("UC"@.len() == 2 && "SR"@.len() == 2 && "TR"@.len() == 2);
    assert("UC"@[0] == 'U' && "SR"@[0] == 'S' && "TR"@[0] == 'T');
    assert("SEC"@.len() == 3 && "SP CARD"@.len() == 7);
}

/// The rarities stand in one fixed order: `Common` < `Uncommon` < `Rare` <
/// `SuperRare` < `SecretRare` < `Leader` < `Special` < `TreasureRare` <
/// `Promo`. Comparing two rarities compares their ordinals, and two
/// rarities with one ordinal are the same rarity.
pub proof fn lemma_rarity_order(a: CardRarity, b: CardRarity)
    ensures
        CardRarity::Common.is_lt(&CardRarity::Uncommon),
        CardRarity::Uncommon.is_lt(&CardRarity::Rare),
        CardRarity::Rare.is_lt(&CardRarity::SuperRare),
        CardRarity::SuperRare.is_lt(&CardRarity::SecretRare),
        CardRarity::SecretRare.is_lt(&CardRarity::Leader),
        CardRarity::Leader.is_lt(&CardRarity::Special),
        CardRarity::Special.is_lt(&CardRarity::TreasureRare),
        CardRarity::TreasureRare.is_lt(&CardRarity::Promo),
        a.is_lt(&b) <==> a.spec_ordinal() < b.spec_ordinal(),
        a.is_le(&b) <==> a.spec_ordinal() <= b.spec_ordinal(),
        a.is_gt(&b) <==> b.is_lt(&a),
        a.spec_ordinal() == b.spec_ordinal() <==> a == b,
        a.spec_ordinal() <= 8,
{
}

/// A card, as the site lists it.
#[derive(Debug, PartialEq, Eq)]
pub struct Card {
    pub id: String,
    pub name: String,
    pub rarity: CardRarity,
    pub category: CardCategory,
    /// Where the picture lies, relative to the page that lists the card.
    pub img_url: String,
    pub colors: Vec<CardColor>,
    /// Characters, events and stages only.
    pub cost: Option<i32>,
    /// Leaders and characters only.
    pub attributes: Vec<CardAttribute>,
    /// Leaders and characters only.
    pub power: Option<i32>,
    /// Characters only.
    pub counter: Option<i32>,
    pub types: Vec<String>,
    pub effect: String,
    pub trigger: Option<String>,
}

/// What a [`Card`] holds, as mathematical values.
pub struct CardView {
    pub id: Seq<char>,
    pub name: Seq<char>,
    pub rarity: CardRarity,
    pub category: CardCategory,
    pub img_url: Seq<char>,
    pub colors: Seq<CardColor>,
    pub cost: Option<i32>,
    pub attributes: Seq<CardAttribute>,
    pub power: Option<i32>,
    pub counter: Option<i32>,
    pub types: Seq<Seq<char>>,
    pub effect: Seq<char>,
    pub trigger: Option<Seq<char>>,
}

impl CardView {
    /// What holds of every card that was read off a page: it has an
    /// identifier and a name, and it has a number only where its category
    /// defines that number.
    pub open spec fn wf(self) -> bool {
        &&& self.id.len() > 0
        &&& self.name.len() > 0
        &&& self.cost is Some ==> self.category.spec_has_cost()
        &&& self.power is Some ==> self.category.spec_has_power()
        &&& self.counter is Some ==> self.category.spec_has_counter()
        &&& self.attributes.len() > 0 ==> self.category.spec_has_power()
    }

    /// The card in one line: identifier, a period and a space, then the
    /// name between backticks.
    pub open spec fn display(self) -> Seq<char> {
        self.id + ". `"@ + self.name + "`"@
    }
}

impl View for Card {
    type V = CardView;

    open spec fn view(&self) -> CardView {
        CardView {
            id: self.id@,
            name: self.name@,
            rarity: self.rarity,
            category: self.category,
            img_url: self.img_url@,
            colors: self.colors@,
            cost: self.cost,
            attributes: self.attributes@,
            power: self.power,
            counter: self.counter,
            types: self.types.deep_view(),
            effect: self.effect@,
            trigger: self.trigger.deep_view(),
        }
    }
}

impl DeepView for Card {
    type V = CardView;

    open spec fn deep_view(&self) -> CardView {
        self@
    }
}

impl Card {
    /// The card in one line, for a listing.
    pub fn to_string(&self) -> (line: String)
        ensures
            line@ == self@.display(),
    {
        let mut line = self.id.clone();
        line.append(". `");
        line.append(self.name.as_str());
        line.append("`");
        line
    }
}

} // verus!
