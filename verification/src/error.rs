//! What can go wrong while a page is read.

use vstd::prelude::*;
use vstd::string::StringExecFns;

verus! {

/// The categorical fields of a card, each read by a validating parser.
#[derive(Clone, Copy, Debug, PartialEq, Eq, Structural)]
pub enum FieldKind {
    Color,
    Attribute,
    Category,
    Rarity,
}

impl FieldKind {
    /// The word that names the field in a message.
    pub open spec fn spec_label(self) -> Seq<char> {
        match self {
            FieldKind::Color => "color"@,
            FieldKind::Attribute => "attribute"@,
            FieldKind::Category => "category"@,
            FieldKind::Rarity => "rarity"@,
        }
    }

    /// The word that names the field in a message.
    pub fn label(self) -> (label: &'static str)
        ensures
            label@ == self.spec_label(),
    {
        match self {
            FieldKind::Color => "color",
            FieldKind::Attribute => "attribute",
            FieldKind::Category => "category",
            FieldKind::Rarity => "rarity",
        }
    }
}

/// A categorical field whose text is none of the values that the field
/// knows. It keeps the text as it was given.
#[derive(Debug, PartialEq, Eq)]
pub struct FieldValidationError {
    pub kind: FieldKind,
    pub raw: String,
}

/// What a [`FieldValidationError`] holds, as mathematical values.
pub struct FieldValidationErrorView {
    pub kind: FieldKind,
    pub raw: Seq<char>,
}

impl View for FieldValidationError {
    type V = FieldValidationErrorView;

    open spec fn view(&self) -> FieldValidationErrorView {
        FieldValidationErrorView { kind: self.kind, raw: self.raw@ }
    }
}

impl FieldValidationErrorView {
    /// The message of the error: the field's name and the rejected text
    /// between backticks.
    pub open spec fn message(self) -> Seq<char> {
        "Unsupported "@ + self.kind.spec_label() + " `"@ + self.raw + "`"@
    }
}

impl FieldValidationError {
    /// The error for `raw`, met where a value of `kind` was expected.
    pub fn new(kind: FieldKind, raw: &str) -> (error: FieldValidationError)
        ensures
            error.kind == kind,
            error.raw@ == raw@,
    {
        FieldValidationError { kind, raw: raw.to_owned() }
    }

    /// The message of the error.
    pub fn to_string(&self) -> (message: String)
        ensures
            message@ == self@.message(),
    {
        let mut message = String::from_str("Unsupported ");
        message.append(self.kind.label());
        message.append(" `");
        message.append(self.raw.as_str());
        message.append("`");
        message
    }
}

/// The parts of a card that can fail to be read.
#[derive(Clone, Copy, Debug, PartialEq, Eq, Structural)]
pub enum CardField {
    /// The piece of the page that describes the card.
    Fragment,
    Id,
    Name,
    Rarity,
    Category,
    Image,
    Colors,
    Cost,
    Attributes,
    Power,
    Counter,
}

impl CardField {
    /// The words that name the part in a message.
    pub open spec fn spec_label(self) -> Seq<char> {
        match self {
            CardField::Fragment => "description"@,
            CardField::Id => "identifier"@,
            CardField::Name => "name"@,
            CardField::Rarity => "rarity"@,
            CardField::Category => "category"@,
            CardField::Image => "image"@,
            CardField::Colors => "colors"@,
            CardField::Cost => "cost"@,
            CardField::Attributes => "attributes"@,
            CardField::Power => "power"@,
            CardField::Counter => "counter"@,
        }
    }

    /// The words that name the part in a message.
    pub fn label(self) -> (label: &'static str)
        ensures
            label@ == self.spec_label(),
    {
        match self {
            CardField::Fragment => "description",
            CardField::Id => "identifier",
            CardField::Name => "name",
            CardField::Rarity => "rarity",
            CardField::Category => "category",
            CardField::Image => "image",
            CardField::Colors => "colors",
            CardField::Cost => "cost",
            CardField::Attributes => "attributes",
            CardField::Power => "power",
            CardField::Counter => "counter",
        }
    }
}

/// Why a part of a card could not be read.
#[derive(Debug, PartialEq, Eq)]
pub enum Cause {
    /// The page does not hold the part, or holds it empty.
    Missing,
    /// The text is none of the values that the field knows.
    Invalid(FieldValidationError),
    /// A number was expected and the text is none.
    NotANumber(String),
}

/// What a [`Cause`] holds, as mathematical values.
pub enum CauseView {
    Missing,
    Invalid(FieldValidationErrorView),
    NotANumber(Seq<char>),
}

impl CauseView {
    /// What went wrong with the part `field`, in words.
    pub open spec fn message(self, field: CardField) -> Seq<char> {
        match self {
            CauseView::Missing => "missing "@ + field.spec_label(),
            CauseView::Invalid(error) => error.message(),
            CauseView::NotANumber(text) => "expected a number for "@ + field.spec_label()
                + ", found `"@ + text + "`"@,
        }
    }
}

impl View for Cause {
    type V = CauseView;

    open spec fn view(&self) -> CauseView {
        match self {
            Cause::Missing => CauseView::Missing,
            Cause::Invalid(error) => CauseView::Invalid(error@),
            Cause::NotANumber(text) => CauseView::NotANumber(text@),
        }
    }
}

/// A card that could not be read: which card, which part of it, and why.
#[derive(Debug, PartialEq, Eq)]
pub struct CardError {
    pub card_id: String,
    pub field: CardField,
    pub cause: Cause,
}

/// What a [`CardError`] holds, as mathematical values.
pub struct CardErrorView {
    pub card_id: Seq<char>,
    pub field: CardField,
    pub cause: CauseView,
}

impl View for CardError {
    type V = CardErrorView;

    open spec fn view(&self) -> CardErrorView {
        CardErrorView { card_id: self.card_id@, field: self.field, cause: self.cause@ }
    }
}

impl CardErrorView {
    /// The message of the error: the card, then what went wrong with it.
    pub open spec fn message(self) -> Seq<char> {
        "failed to scrap data about card `"@ + self.card_id + "`: "@ + self.cause.message(
            self.field,
        )
    }
}

impl Cause {
    /// What went wrong with the part `field`, in words.
    pub fn message(&self, field: CardField) -> (message: String)
        ensures
            message@ == self@.message(field),
    {
        match self {
            Cause::Missing => {
                let mut message = String::from_str("missing ");
                message.append(field.label());
                message
            },
            Cause::Invalid(error) => error.to_string(),
            Cause::NotANumber(text) => {
                let mut message = String::from_str("expected a number for ");
                message.append(field.label());
                message.append(", found `");
                message.append(text.as_str());
                message.append("`");
                message
            },
        }
    }
}

impl CardError {
    /// The message of the error.
    pub fn to_string(&self) -> (message: String)
        ensures
            message@ == self@.message(),
    {
        let mut message = String::from_str("failed to scrap data about card `");
        message.append(self.card_id.as_str());
        message.append("`: ");
        message.append(self.cause.message(self.field).as_str());
        message
    }

    /// The error for the part `field` of the card `card_id`.
    pub fn new(card_id: &str, field: CardField, cause: Cause) -> (error: CardError)
        ensures
            error@ == (CardErrorView { card_id: card_id@, field, cause: cause@ }),
    {
        CardError { card_id: card_id.to_owned(), field, cause }
    }
}

/// Why a page could not be read.
#[derive(Debug, PartialEq, Eq)]
pub enum ScrapeError {
    /// The page has more bytes than the HTML library can be given.
    TooLong,
    /// One of the selectors that the pages are read with cannot be read.
    Selector,
    /// The link at `position` among the links to cards carries no
    /// identifier.
    Identifier { position: usize },
    /// A card could not be read.
    Card(CardError),
}

/// What a [`ScrapeError`] holds, as mathematical values.
pub enum ScrapeErrorView {
    TooLong,
    Selector,
    Identifier { position: int },
    Card(CardErrorView),
}

impl ScrapeErrorView {
    /// The message of the error.
    pub open spec fn message(self) -> Seq<char> {
        match self {
            ScrapeErrorView::TooLong => "page is too long"@,
            ScrapeErrorView::Selector => "invalid selector"@,
            ScrapeErrorView::Identifier { .. } => "expected `data-src` attr on <a>"@,
            ScrapeErrorView::Card(error) => error.message(),
        }
    }
}

impl ScrapeError {
    /// The message of the error.
    pub fn to_string(&self) -> (message: String)
        ensures
            message@ == self@.message(),
    {
        match self {
            ScrapeError::TooLong => String::from_str("page is too long"),
            ScrapeError::Selector => String::from_str("invalid selector"),
            ScrapeError::Identifier { .. } => String::from_str(
                "expected `data-src` attr on <a>",
            ),
            ScrapeError::Card(error) => error.to_string(),
        }
    }
}

impl View for ScrapeError {
    type V = ScrapeErrorView;

    open spec fn view(&self) -> ScrapeErrorView {
        match self {
            ScrapeError::TooLong => ScrapeErrorView::TooLong,
            ScrapeError::Selector => ScrapeErrorView::Selector,
            ScrapeError::Identifier { position } => ScrapeErrorView::Identifier {
                position: *position as int,
            },
            ScrapeError::Card(error) => ScrapeErrorView::Card(error@),
        }
    }
}

} // verus!
