use optcg_scraper::card::{CardAttribute, CardCategory, CardColor, CardRarity};
use optcg_scraper::card_scraper::{CardMarkup, CardScraper, CardSelectors};
use optcg_scraper::card_set::{retain_selectable, CardSet};
use optcg_scraper::error::{
    CardError, CardField, Cause, FieldKind, FieldValidationError, ScrapeError,
};
use optcg_scraper::localizer::{Label, Localizer};
use optcg_scraper::markup::{Page, Query, PAGE_LIMIT};
use optcg_scraper::op_scraper::{card_id_from, OpTcgScraper};

fn site() -> Localizer {
    Localizer::new("https://en.onepiece-cardgame.com")
}

fn series_page(options: &str) -> String {
    format!(
        "<html><body><div class=\"seriesCol\"><select id=\"series\" name=\"series\">{}</select></div></body></html>",
        options
    )
}

fn anchor(raw: &str) -> String {
    format!("<a class=\"modalOpen\" data-src=\"{}\"><img alt=\"\"></a>", raw)
}

fn zoro() -> String {
    String::from(
        "<dl class=\"modalCol\" id=\"OP01-001\">
           <dt>
             <div class=\"infoCol\"><span>OP01-001</span> | <span>L</span> | <span>LEADER</span></div>
             <div class=\"cardName\">Roronoa Zoro</div>
           </dt>
           <dd>
             <div class=\"frontCol\"><img class=\"lazy\" data-src=\"../images/OP01-001.png\" alt=\"Roronoa Zoro\"></div>
             <div class=\"backCol\">
               <div class=\"col2\">
                 <div class=\"cost\"><h3>Life</h3>5</div>
                 <div class=\"attribute\"><h3>Attribute</h3><img alt=\"Slash\"><i>Slash</i></div>
               </div>
               <div class=\"col2\">
                 <div class=\"power\"><h3>Power</h3>5000</div>
                 <div class=\"counter\"><h3>Counter</h3>-</div>
               </div>
               <div class=\"color\"><h3>Color</h3>Red</div>
               <div class=\"feature\"><h3>Type</h3>Supernovas/Straw Hat Crew</div>
               <div class=\"text\"><h3>Effect</h3>[DON!! x1] [Your Turn] All of your Characters gain +1000 power.</div>
               <div class=\"getInfo\"><h3>Card Set(s)</h3>-ROMANCE DAWN- [OP01]</div>
             </div>
           </dd>
         </dl>",
    )
}

fn character(id: &str, name: &str, color: &str, counter: &str) -> String {
    format!(
        "<dl class=\"modalCol\" id=\"{}\">
           <dt>
             <div class=\"infoCol\"><span>{}</span> | <span>R</span> | <span>CHARACTER</span></div>
             <div class=\"cardName\">{}</div>
           </dt>
           <dd>
             <div class=\"frontCol\"><img class=\"lazy\" data-src=\"../images/{}.png\" alt=\"\"></div>
             <div class=\"backCol\">
               <div class=\"cost\"><h3>Cost</h3>3</div>
               <div class=\"attribute\"><h3>Attribute</h3><i>Strike/Special</i></div>
               <div class=\"power\"><h3>Power</h3>4000</div>
               {}
               <div class=\"color\"><h3>Color</h3>{}</div>
               <div class=\"feature\"><h3>Type</h3>Straw Hat Crew</div>
               <div class=\"text\"><h3>Effect</h3>[On Play] Draw 1 card.<br>Then, trash 1 card.</div>
               <div class=\"trigger\"><h3>Trigger</h3>Play this card.</div>
             </div>
           </dd>
         </dl>",
        id, id, name, id, counter, color
    )
}

fn cards_page(anchors: &str, fragments: &str) -> String {
    format!(
        "<html><body><div class=\"resultCol\">{}</div>{}</body></html>",
        anchors, fragments
    )
}

fn markup() -> CardMarkup {
    CardMarkup {
        name: Some(String::from("Nami")),
        rarity: Some(String::from("uc")),
        category: Some(String::from("Character")),
        img_url: Some(String::from("../images/OP01-016.png")),
        colors: Some(String::from("Red/Green")),
        cost: Some(String::from("1")),
        attributes: Some(String::from("Special")),
        power: Some(String::from("2000")),
        counter: Some(String::from("1000")),
        types: Some(String::from("Straw Hat Crew")),
        effect: Some(String::from("[On Play] Look at 5 cards.")),
        trigger: None,
    }
}

fn card_error(card_id: &str, field: CardField, cause: Cause) -> CardError {
    CardError { card_id: String::from(card_id), field, cause }
}

fn invalid(kind: FieldKind, raw: &str) -> Cause {
    Cause::Invalid(FieldValidationError { kind, raw: String::from(raw) })
}

#[test]
fn scraper_takes_its_address_from_the_localizer() {
    let localizer = site();
    let scraper = OpTcgScraper::new(&localizer);
    assert_eq!(scraper.cardlist_endpoint(), "https://en.onepiece-cardgame.com/cardlist");
    let other = Localizer::new("http://localhost:8080");
    assert_eq!(OpTcgScraper::new(&other).cardlist_endpoint(), "http://localhost:8080/cardlist");
}

#[test]
fn image_url_drops_three_characters_and_joins_the_host() {
    let localizer = site();
    let scraper = OpTcgScraper::new(&localizer);
    assert_eq!(
        scraper.get_img_full_url("../images/OP01-001.png"),
        "https://en.onepiece-cardgame.com/images/OP01-001.png"
    );
    assert_eq!(scraper.get_img_full_url("../"), "https://en.onepiece-cardgame.com/");
    assert_eq!(scraper.get_img_full_url("abcd"), "https://en.onepiece-cardgame.com/d");
    let empty = Localizer::new("");
    assert_eq!(OpTcgScraper::new(&empty).get_img_full_url("../x.png"), "/x.png");
}

#[test]
fn card_image_url_is_none_for_a_short_address() {
    let localizer = site();
    let scraper = OpTcgScraper::new(&localizer);
    let mut card = CardScraper::build_card(&localizer, "OP01-016", &markup()).unwrap();
    assert_eq!(
        scraper.card_image_url(&card),
        Some(String::from("https://en.onepiece-cardgame.com/images/OP01-016.png"))
    );
    card.img_url = String::from("../");
    assert_eq!(
        scraper.card_image_url(&card),
        Some(String::from("https://en.onepiece-cardgame.com/"))
    );
    card.img_url = String::from("..");
    assert_eq!(scraper.card_image_url(&card), None);
    card.img_url = String::new();
    assert_eq!(scraper.card_image_url(&card), None);
    card.img_url = String::from("画像/x.png");
    assert_eq!(
        scraper.card_image_url(&card),
        Some(String::from("https://en.onepiece-cardgame.com/x.png"))
    );
}

#[test]
fn card_id_is_the_attribute_without_its_first_character() {
    assert_eq!(card_id_from("/OP01-001"), Some("OP01-001"));
    assert_eq!(card_id_from("#OP01-001"), Some("OP01-001"));
    assert_eq!(card_id_from("#"), Some(""));
    assert_eq!(card_id_from(""), None);
    assert_eq!(card_id_from("本ST01-001"), Some("ST01-001"));
}

#[test]
fn card_sets_leave_out_the_placeholder() {
    let localizer = site();
    let scraper = OpTcgScraper::new(&localizer);
    let page = series_page(
        "<option value=\"\">Choose a series</option>\
         <option value=\"569101\">BOOSTER PACK -ROMANCE DAWN- [OP-01]</option>\
         <option value=\"569001\">STARTER DECK -Straw Hat Crew- [ST-01]</option>",
    );
    let sets = scraper.read_all_card_sets(&page).unwrap();
    assert_eq!(
        sets,
        vec![
            CardSet {
                id: String::from("569101"),
                label: String::from("BOOSTER PACK -ROMANCE DAWN- [OP-01]"),
            },
            CardSet {
                id: String::from("569001"),
                label: String::from("STARTER DECK -Straw Hat Crew- [ST-01]"),
            },
        ]
    );
}

#[test]
fn card_sets_keep_the_order_of_the_page() {
    let localizer = site();
    let scraper = OpTcgScraper::new(&localizer);
    let page = series_page(
        "<option value=\"b\">B</option><option value=\"\">none</option>\
         <option value=\"a\">A</option><option>no value</option>\
         <option value=\"c\"> C &amp; D\n</option>",
    );
    let sets = scraper.read_all_card_sets(&page).unwrap();
    let ids: Vec<&str> = sets.iter().map(|set| set.id.as_str()).collect();
    let labels: Vec<&str> = sets.iter().map(|set| set.label.as_str()).collect();
    assert_eq!(ids, vec!["b", "a", "c"]);
    assert_eq!(labels, vec!["B", "A", "C & D"]);
}

#[test]
fn card_sets_of_a_page_without_menu_are_none() {
    let localizer = site();
    let scraper = OpTcgScraper::new(&localizer);
    assert_eq!(scraper.read_all_card_sets(""), Ok(vec![]));
    assert_eq!(scraper.read_all_card_sets("<p>nothing here</p>"), Ok(vec![]));
    assert_eq!(scraper.read_all_card_sets(&series_page("")), Ok(vec![]));
    assert_eq!(
        scraper.read_all_card_sets(&series_page("<option value=\"\">Choose</option>")),
        Ok(vec![])
    );
    // Options of another menu are not read.
    assert_eq!(
        scraper.read_all_card_sets(
            "<div class=\"seriesCol\"><select id=\"other\"><option value=\"1\">One</option></select></div>"
        ),
        Ok(vec![])
    );
}

#[test]
fn retain_selectable_drops_empty_identifiers() {
    let entry = |id: &str, label: &str| CardSet { id: String::from(id), label: String::from(label) };
    assert_eq!(retain_selectable(vec![]), vec![]);
    assert_eq!(retain_selectable(vec![entry("", "none")]), vec![]);
    assert_eq!(
        retain_selectable(vec![entry("", "x"), entry("1", "one"), entry("", "y"), entry("2", "")]),
        vec![entry("1", "one"), entry("2", "")]
    );
}

#[test]
fn card_set_from_parts_takes_a_missing_value_as_empty() {
    let set = CardSet::from_parts(None, String::from("Choose"));
    assert_eq!(set, CardSet { id: String::new(), label: String::from("Choose") });
    assert!(!set.is_selectable());
    let set = CardSet::from_parts(Some(String::from("569101")), String::from("OP-01"));
    assert_eq!(set, CardSet { id: String::from("569101"), label: String::from("OP-01") });
    assert!(set.is_selectable());
}

#[test]
fn leader_is_read_without_cost_and_counter() {
    let localizer = site();
    let scraper = OpTcgScraper::new(&localizer);
    let page = cards_page(&anchor("#OP01-001"), &zoro());
    let cards = scraper.read_all_cards(&page).unwrap();
    assert_eq!(cards.len(), 1);
    let card = &cards[0];
    assert_eq!(card.id, "OP01-001");
    assert_eq!(card.name, "Roronoa Zoro");
    assert_eq!(card.rarity, CardRarity::Leader);
    assert_eq!(card.category, CardCategory::Leader);
    assert_eq!(card.img_url, "../images/OP01-001.png");
    assert_eq!(card.colors, vec![CardColor::Red]);
    assert_eq!(card.cost, None);
    assert_eq!(card.attributes, vec![CardAttribute::Slash]);
    assert_eq!(card.power, Some(5000));
    assert_eq!(card.counter, None);
    assert_eq!(card.types, vec!["Supernovas", "Straw Hat Crew"]);
    assert_eq!(card.effect, "[DON!! x1] [Your Turn] All of your Characters gain +1000 power.");
    assert_eq!(card.trigger, None);
    assert_eq!(card.to_string(), "OP01-001. `Roronoa Zoro`");
}

#[test]
fn character_without_printed_counter_has_none() {
    let localizer = site();
    let scraper = OpTcgScraper::new(&localizer);
    for counter in ["", "<div class=\"counter\"><h3>Counter</h3>-</div>", "<div class=\"counter\"><h3>Counter</h3></div>"] {
        let page = cards_page(&anchor("/OP01-013"), &character("OP01-013", "Sanji", "Red", counter));
        let cards = scraper.read_all_cards(&page).unwrap();
        assert_eq!(cards.len(), 1);
        assert_eq!(cards[0].id, "OP01-013");
        assert_eq!(cards[0].category, CardCategory::Character);
        assert_eq!(cards[0].counter, None);
        assert_eq!(cards[0].cost, Some(3));
        assert_eq!(cards[0].power, Some(4000));
    }
}

#[test]
fn character_with_printed_counter_has_it() {
    let localizer = site();
    let scraper = OpTcgScraper::new(&localizer);
    let page = cards_page(
        &anchor("/OP01-013"),
        &character("OP01-013", "Sanji", "Red/Green", "<div class=\"counter\"><h3>Counter</h3>2000</div>"),
    );
    let cards = scraper.read_all_cards(&page).unwrap();
    assert_eq!(cards[0].counter, Some(2000));
    assert_eq!(cards[0].colors, vec![CardColor::Red, CardColor::Green]);
    assert_eq!(cards[0].attributes, vec![CardAttribute::Strike, CardAttribute::Special]);
    assert_eq!(cards[0].rarity, CardRarity::Rare);
    assert_eq!(cards[0].types, vec!["Straw Hat Crew"]);
    assert_eq!(cards[0].effect, "[On Play] Draw 1 card.Then, trash 1 card.");
    assert_eq!(cards[0].trigger, Some(String::from("Play this card.")));
}

#[test]
fn cards_come_in_the_order_of_the_links() {
    let localizer = site();
    let scraper = OpTcgScraper::new(&localizer);
    let anchors = format!("{}{}{}", anchor("/OP01-013"), anchor("/OP01-001"), anchor("/OP01-016"));
    let fragments = format!(
        "{}{}{}",
        zoro(),
        character("OP01-016", "Nami", "Blue", ""),
        character("OP01-013", "Sanji", "Red", "")
    );
    let cards = scraper.read_all_cards(&cards_page(&anchors, &fragments)).unwrap();
    let ids: Vec<&str> = cards.iter().map(|card| card.id.as_str()).collect();
    assert_eq!(ids, vec!["OP01-013", "OP01-001", "OP01-016"]);
}

#[test]
fn page_without_links_lists_no_card() {
    let localizer = site();
    let scraper = OpTcgScraper::new(&localizer);
    assert_eq!(scraper.read_all_cards(""), Ok(vec![]));
    assert_eq!(scraper.read_all_cards(&cards_page("", &zoro())), Ok(vec![]));
}

#[test]
fn one_card_that_fails_fails_the_list() {
    let localizer = site();
    let scraper = OpTcgScraper::new(&localizer);
    let anchors = format!("{}{}{}", anchor("/OP01-001"), anchor("/OP01-013"), anchor("/OP01-016"));
    let fragments = format!(
        "{}{}{}",
        zoro(),
        character("OP01-013", "Sanji", "Red/Pink", ""),
        character("OP01-016", "Nami", "Blue", "")
    );
    assert_eq!(
        scraper.read_all_cards(&cards_page(&anchors, &fragments)),
        Err(ScrapeError::Card(card_error(
            "OP01-013",
            CardField::Colors,
            invalid(FieldKind::Color, "Pink")
        )))
    );
}

#[test]
fn the_first_failing_card_is_the_one_reported() {
    let localizer = site();
    let scraper = OpTcgScraper::new(&localizer);
    let anchors = format!("{}{}", anchor("/OP01-016"), anchor("/OP01-013"));
    let fragments = format!(
        "{}{}",
        character("OP01-013", "Sanji", "Pink", ""),
        character("OP01-016", "Nami", "Teal", "")
    );
    assert_eq!(
        scraper.read_all_cards(&cards_page(&anchors, &fragments)),
        Err(ScrapeError::Card(card_error(
            "OP01-016",
            CardField::Colors,
            invalid(FieldKind::Color, "Teal")
        )))
    );
}

#[test]
fn link_without_identifier_fails_the_list() {
    let localizer = site();
    let scraper = OpTcgScraper::new(&localizer);
    let anchors = format!("{}<a class=\"modalOpen\"></a>", anchor("/OP01-001"));
    assert_eq!(
        scraper.read_all_cards(&cards_page(&anchors, &zoro())),
        Err(ScrapeError::Identifier { position: 1 })
    );
    assert_eq!(
        scraper.read_all_cards(&cards_page(&anchor(""), &zoro())),
        Err(ScrapeError::Identifier { position: 0 })
    );
}

#[test]
fn link_to_a_card_that_the_page_lacks_fails_the_list() {
    let localizer = site();
    let scraper = OpTcgScraper::new(&localizer);
    assert_eq!(
        scraper.read_all_cards(&cards_page(&anchor("/OP01-002"), &zoro())),
        Err(ScrapeError::Card(card_error("OP01-002", CardField::Fragment, Cause::Missing)))
    );
    assert_eq!(
        scraper.read_all_cards(&cards_page(&anchor("/"), &zoro())),
        Err(ScrapeError::Card(card_error("", CardField::Fragment, Cause::Missing)))
    );
}

#[test]
fn create_card_reads_the_piece_with_the_identifier() {
    let localizer = site();
    let selectors = CardSelectors::parse().unwrap();
    let page = cards_page("", &format!("{}{}", zoro(), character("OP01-013", "Sanji", "Red", "")));
    let page = Page::parse(&page).unwrap();
    let card = CardScraper::create_card(&localizer, &selectors, &page, "OP01-013").unwrap();
    assert_eq!(card.name, "Sanji");
    let card = CardScraper::create_card(&localizer, &selectors, &page, "OP01-001").unwrap();
    assert_eq!(card.name, "Roronoa Zoro");
    assert_eq!(
        CardScraper::create_card(&localizer, &selectors, &page, "op01-001"),
        Err(card_error("op01-001", CardField::Fragment, Cause::Missing))
    );
}

#[test]
fn build_card_reads_every_field() {
    let card = CardScraper::build_card(&site(), "OP01-016", &markup()).unwrap();
    assert_eq!(card.id, "OP01-016");
    assert_eq!(card.name, "Nami");
    assert_eq!(card.rarity, CardRarity::Uncommon);
    assert_eq!(card.category, CardCategory::Character);
    assert_eq!(card.img_url, "../images/OP01-016.png");
    assert_eq!(card.colors, vec![CardColor::Red, CardColor::Green]);
    assert_eq!(card.cost, Some(1));
    assert_eq!(card.attributes, vec![CardAttribute::Special]);
    assert_eq!(card.power, Some(2000));
    assert_eq!(card.counter, Some(1000));
    assert_eq!(card.types, vec!["Straw Hat Crew"]);
    assert_eq!(card.effect, "[On Play] Look at 5 cards.");
    assert_eq!(card.trigger, None);
}

#[test]
fn build_card_maps_absent_optional_fields_to_none() {
    let mut bare = markup();
    bare.colors = None;
    bare.cost = None;
    bare.attributes = None;
    bare.power = None;
    bare.counter = None;
    bare.types = None;
    bare.effect = None;
    bare.trigger = None;
    let card = CardScraper::build_card(&site(), "OP01-016", &bare).unwrap();
    assert_eq!(card.colors, vec![]);
    assert_eq!(card.cost, None);
    assert_eq!(card.attributes, vec![]);
    assert_eq!(card.power, None);
    assert_eq!(card.counter, None);
    assert_eq!(card.types, Vec::<String>::new());
    assert_eq!(card.effect, "");
    assert_eq!(card.trigger, None);

    let mut dashes = markup();
    dashes.cost = Some(String::from("-"));
    dashes.power = Some(String::new());
    dashes.counter = Some(String::from("-"));
    dashes.colors = Some(String::new());
    dashes.types = Some(String::new());
    dashes.trigger = Some(String::new());
    let card = CardScraper::build_card(&site(), "OP01-016", &dashes).unwrap();
    assert_eq!(card.cost, None);
    assert_eq!(card.power, None);
    assert_eq!(card.counter, None);
    assert_eq!(card.colors, vec![]);
    assert_eq!(card.types, Vec::<String>::new());
    assert_eq!(card.trigger, None);
}

#[test]
fn build_card_keeps_only_the_numbers_of_the_category() {
    let mut event = markup();
    event.category = Some(String::from("EVENT"));
    event.trigger = Some(String::from("Draw 1 card."));
    let card = CardScraper::build_card(&site(), "OP01-026", &event).unwrap();
    assert_eq!(card.category, CardCategory::Event);
    assert_eq!(card.cost, Some(1));
    assert_eq!(card.power, None);
    assert_eq!(card.counter, None);
    assert_eq!(card.attributes, vec![]);
    assert_eq!(card.trigger, Some(String::from("Draw 1 card.")));

    let mut leader = markup();
    leader.category = Some(String::from("leader"));
    let card = CardScraper::build_card(&site(), "OP01-001", &leader).unwrap();
    assert_eq!(card.cost, None);
    assert_eq!(card.power, Some(2000));
    assert_eq!(card.counter, None);
    assert_eq!(card.attributes, vec![CardAttribute::Special]);

    let mut don = markup();
    don.category = Some(String::from("DON"));
    don.cost = Some(String::from("not read"));
    don.attributes = Some(String::from("not read"));
    don.power = Some(String::from("not read"));
    don.counter = Some(String::from("not read"));
    let card = CardScraper::build_card(&site(), "DON-001", &don).unwrap();
    assert_eq!(card.cost, None);
    assert_eq!(card.power, None);
    assert_eq!(card.counter, None);
    assert_eq!(card.attributes, vec![]);
}

#[test]
fn build_card_names_the_part_that_fails() {
    let localizer = site();
    let fails = |change: &dyn Fn(&mut CardMarkup), field: CardField, cause: Cause| {
        let mut changed = markup();
        change(&mut changed);
        assert_eq!(
            CardScraper::build_card(&localizer, "OP01-016", &changed),
            Err(card_error("OP01-016", field, cause))
        );
    };
    fails(&|m| m.name = None, CardField::Name, Cause::Missing);
    fails(&|m| m.name = Some(String::new()), CardField::Name, Cause::Missing);
    fails(&|m| m.rarity = None, CardField::Rarity, Cause::Missing);
    fails(&|m| m.rarity = Some(String::from("XX")), CardField::Rarity, invalid(FieldKind::Rarity, "XX"));
    fails(&|m| m.category = None, CardField::Category, Cause::Missing);
    fails(
        &|m| m.category = Some(String::from("Monster")),
        CardField::Category,
        invalid(FieldKind::Category, "Monster"),
    );
    fails(&|m| m.img_url = None, CardField::Image, Cause::Missing);
    fails(
        &|m| m.colors = Some(String::from("Red/")),
        CardField::Colors,
        invalid(FieldKind::Color, ""),
    );
    fails(
        &|m| m.cost = Some(String::from("one")),
        CardField::Cost,
        Cause::NotANumber(String::from("one")),
    );
    fails(
        &|m| m.attributes = Some(String::from("Slash/Magic/Bogus")),
        CardField::Attributes,
        invalid(FieldKind::Attribute, "Magic"),
    );
    fails(
        &|m| m.power = Some(String::from("2147483648")),
        CardField::Power,
        Cause::NotANumber(String::from("2147483648")),
    );
    fails(
        &|m| m.counter = Some(String::from("+1000")),
        CardField::Counter,
        Cause::NotANumber(String::from("+1000")),
    );
    assert_eq!(
        CardScraper::build_card(&localizer, "", &markup()),
        Err(card_error("", CardField::Id, Cause::Missing))
    );
}

#[test]
fn build_card_reports_the_earliest_part() {
    let mut broken = markup();
    broken.rarity = Some(String::from("XX"));
    broken.colors = Some(String::from("Pink"));
    broken.counter = Some(String::from("many"));
    assert_eq!(
        CardScraper::build_card(&site(), "OP01-016", &broken),
        Err(card_error("OP01-016", CardField::Rarity, invalid(FieldKind::Rarity, "XX")))
    );
}

#[test]
fn labels_of_the_site_stand_for_codes() {
    let mut localizer = Localizer::new("https://www.onepiece-cardgame.com");
    localizer.labels = vec![
        Label { text: String::from("リーダー"), code: String::from("LEADER") },
        Label { text: String::from("赤"), code: String::from("red") },
        Label { text: String::from("斬"), code: String::from("Slash") },
        Label { text: String::from("赤"), code: String::from("blue") },
    ];
    assert_eq!(localizer.lookup("リーダー"), "LEADER");
    assert_eq!(localizer.lookup("赤"), "red");
    assert_eq!(localizer.lookup("Green"), "Green");
    assert_eq!(localizer.lookup(""), "");

    let mut japanese = markup();
    japanese.category = Some(String::from("リーダー"));
    japanese.colors = Some(String::from("赤/Green"));
    japanese.attributes = Some(String::from("斬"));
    let card = CardScraper::build_card(&localizer, "OP01-001", &japanese).unwrap();
    assert_eq!(card.category, CardCategory::Leader);
    assert_eq!(card.colors, vec![CardColor::Red, CardColor::Green]);
    assert_eq!(card.attributes, vec![CardAttribute::Slash]);

    japanese.colors = Some(String::from("青"));
    assert_eq!(
        CardScraper::build_card(&localizer, "OP01-001", &japanese),
        Err(card_error("OP01-001", CardField::Colors, invalid(FieldKind::Color, "青")))
    );
}

#[test]
fn read_markup_takes_the_texts_from_their_places() {
    let selectors = CardSelectors::parse().unwrap();
    let page = cards_page("", &character("OP01-013", "Sanji", " Red / Green ", ""));
    let page = Page::parse(&page).unwrap();
    assert_eq!(CardScraper::find_markup(&selectors, &page, "OP01-014"), None);
    let found = CardScraper::find_markup(&selectors, &page, "OP01-013").unwrap();
    let pieces = Query::parse("dl").unwrap();
    let fragments = page.select(&pieces);
    assert_eq!(fragments.len(), 1);
    assert_eq!(CardScraper::read_markup(&selectors, &fragments[0]), found);
    assert_eq!(found.name, Some(String::from("Sanji")));
    assert_eq!(found.rarity, Some(String::from("R")));
    assert_eq!(found.category, Some(String::from("CHARACTER")));
    assert_eq!(found.img_url, Some(String::from("../images/OP01-013.png")));
    assert_eq!(found.colors, Some(String::from("Red / Green")));
    assert_eq!(found.cost, Some(String::from("3")));
    assert_eq!(found.attributes, Some(String::from("Strike/Special")));
    assert_eq!(found.power, Some(String::from("4000")));
    assert_eq!(found.counter, None);
    assert_eq!(found.types, Some(String::from("Straw Hat Crew")));
    assert_eq!(found.effect, Some(String::from("[On Play] Draw 1 card.Then, trash 1 card.")));
    assert_eq!(found.trigger, Some(String::from("Play this card.")));
}

#[test]
fn first_piece_with_the_identifier_is_the_one_read() {
    let localizer = site();
    let selectors = CardSelectors::parse().unwrap();
    let page = cards_page(
        "",
        &format!(
            "{}{}",
            character("OP01-013", "Sanji", "Red", ""),
            character("OP01-013", "Another", "Blue", "")
        ),
    );
    let page = Page::parse(&page).unwrap();
    let card = CardScraper::create_card(&localizer, &selectors, &page, "OP01-013").unwrap();
    assert_eq!(card.name, "Sanji");
    assert_eq!(card.colors, vec![CardColor::Red]);
}

#[test]
fn selectors_are_read_by_the_html_library() {
    assert!(CardSelectors::parse().is_some());
    assert!(Query::parse("div.resultCol>a").is_some());
    assert!(Query::parse("div.seriesCol>select#series>option").is_some());
    assert!(Query::parse("<not a selector>").is_none());
    assert!(Query::parse("").is_none());
}

#[test]
fn elements_give_their_own_text_and_attributes() {
    let page = Page::parse(
        "<div id=\"a\" class=\"x\"> one <b>two</b> three <!-- four --><i>five</i>\n</div><div class=\"x\"></div>",
    )
    .unwrap();
    let found = page.select(&Query::parse("div.x").unwrap());
    assert_eq!(found.len(), 2);
    assert_eq!(found[0].text(), "one  three");
    assert_eq!(found[0].attr("id"), Some(String::from("a")));
    assert_eq!(found[0].attr("class"), Some(String::from("x")));
    assert_eq!(found[0].attr("href"), None);
    assert_eq!(found[1].text(), "");
    assert_eq!(found[1].attr("id"), None);
    let bold = Query::parse("b").unwrap();
    assert_eq!(found[0].read_text(&bold), Some(String::from("two")));
    assert_eq!(found[1].read_text(&bold), None);
    assert_eq!(found[0].read_attribute(&bold, "id"), None);
    let any = Query::parse("b, i").unwrap();
    assert_eq!(found[0].read_text(&any), Some(String::from("two")));
}

#[test]
fn errors_say_what_failed() {
    assert_eq!(ScrapeError::TooLong.to_string(), "page is too long");
    assert_eq!(ScrapeError::Selector.to_string(), "invalid selector");
    assert_eq!(
        ScrapeError::Identifier { position: 3 }.to_string(),
        "expected `data-src` attr on <a>"
    );
    assert_eq!(
        ScrapeError::Card(card_error(
            "OP01-013",
            CardField::Colors,
            invalid(FieldKind::Color, "Pink")
        ))
        .to_string(),
        "failed to scrap data about card `OP01-013`: Unsupported color `Pink`"
    );
    assert_eq!(
        card_error("OP01-013", CardField::Name, Cause::Missing).to_string(),
        "failed to scrap data about card `OP01-013`: missing name"
    );
    assert_eq!(
        card_error("OP01-013", CardField::Fragment, Cause::Missing).to_string(),
        "failed to scrap data about card `OP01-013`: missing description"
    );
    assert_eq!(
        card_error("OP01-013", CardField::Power, Cause::NotANumber(String::from("many")))
            .to_string(),
        "failed to scrap data about card `OP01-013`: expected a number for power, found `many`"
    );
    assert_eq!(Cause::Missing.message(CardField::Image), "missing image");
}

#[test]
fn page_beyond_the_limit_is_not_read() {
    assert_eq!(PAGE_LIMIT, 268_435_456);
    let long = String::from_utf8(vec![b' '; PAGE_LIMIT + 1]).unwrap();
    assert!(Page::parse(&long).is_none());
    let localizer = site();
    let scraper = OpTcgScraper::new(&localizer);
    assert_eq!(scraper.read_all_card_sets(&long), Err(ScrapeError::TooLong));
    assert_eq!(scraper.read_all_cards(&long), Err(ScrapeError::TooLong));
}

#[test]
fn page_within_the_limit_is_read() {
    assert!(Page::parse("").is_some());
    let page = series_page("<option value=\"1\">One</option>");
    assert!(page.len() <= PAGE_LIMIT);
    assert!(Page::parse(&page).is_some());
    // Bytes that the HTML library replaces by longer ones are read too.
    let page = Page::parse("<p class=\"x\">a\0b</p>").unwrap();
    let found = page.select(&Query::parse("p.x").unwrap());
    assert_eq!(found.len(), 1);
}
