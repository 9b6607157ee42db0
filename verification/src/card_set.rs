//! The card sets that a listing page offers in its series menu.

use crate::markup::{attribute_of, Element, Place};
use crate::page::own_text;
use vstd::prelude::*;

verus! {

/// A set of cards released together: the identifier that the site knows it
/// by, and the label that it shows for it.
#[derive(Debug, PartialEq, Eq)]
pub struct CardSet {
    /// Empty for an entry of the menu that stands for no set.
    pub id: String,
    pub label: String,
}

/// What a [`CardSet`] holds, as mathematical values.
pub struct CardSetView {
    pub id: Seq<char>,
    pub label: Seq<char>,
}

impl View for CardSet {
    type V = CardSetView;

    open spec fn view(&self) -> CardSetView {
        CardSetView { id: self.id@, label: self.label@ }
    }
}

impl DeepView for CardSet {
    type V = CardSetView;

    open spec fn deep_view(&self) -> CardSetView {
        self@
    }
}

impl CardSetView {
    /// Whether the entry stands for a set that can be chosen: it has an
    /// identifier.
    pub open spec fn is_selectable(self) -> bool {
        self.id.len() > 0
    }

    /// The entry of the menu with the value `value` and the text `label`.
    /// An entry without a value has the empty identifier.
    pub open spec fn of_parts(value: Option<Seq<char>>, label: Seq<char>) -> CardSetView {
        CardSetView {
            id: match value {
                Some(id) => id,
                None => Seq::<char>::empty(),
            },
            label,
        }
    }

    /// The entry that the `option` element `element` stands for: its
    /// `value` attribute and its own text.
    pub open spec fn of_element(element: Place) -> CardSetView {
        Self::of_parts(attribute_of(element, "value"@), own_text(element))
    }
}

/// The entries of `entries` that stand for a set, in the order in which
/// they came.
pub open spec fn selectable(entries: Seq<CardSetView>) -> Seq<CardSetView> {
    entries.filter(|entry: CardSetView| entry.is_selectable())
}

/// The entries are gone through in order: an entry that stands for a set
/// is put behind those kept so far, any other is left out.
pub proof fn lemma_selectable_step(entries: Seq<CardSetView>, entry: CardSetView)
    ensures
        selectable(Seq::<CardSetView>::empty()) == Seq::<CardSetView>::empty(),
        selectable(entries.push(entry)) == if entry.is_selectable() {
            selectable(entries).push(entry)
        } else {
            selectable(entries)
        },
{
    reveal(Seq::filter);
    assert(entries.push(entry).drop_last() =~= entries);
}

/// Of the entries of a menu, those that stand for a set are kept and no
/// other: what is kept has an identifier and was an entry, and every entry
/// with an identifier is kept.
pub proof fn lemma_selectable(entries: Seq<CardSetView>)
    ensures
        selectable(entries).len() <= entries.len(),
        forall|i: int|
            0 <= i < selectable(entries).len() ==> {
                &&& (#[trigger] selectable(entries)[i]).is_selectable()
                &&& entries.contains(selectable(entries)[i])
            },
        forall|i: int|
            0 <= i < entries.len() && (#[trigger] entries[i]).is_selectable() ==> selectable(
                entries,
            ).contains(entries[i]),
    decreases entries.len(),
{
    if entries.len() > 0 {
        let before = entries.drop_last();
        let last = entries.last();
        let kept = selectable(entries);
        lemma_selectable(before);
        lemma_selectable_step(before, last);
        assert(entries =~= before.push(last));
        assert forall|i: int| 0 <= i < kept.len() implies (#[trigger] kept[i]).is_selectable()
            && entries.contains(kept[i]) by {
            if i < selectable(before).len() {
                assert(kept[i] == selectable(before)[i]);
                assert(before.contains(kept[i]));
                let j = choose|j: int| 0 <= j < before.len() && before[j] == kept[i];
                assert(entries[j] == kept[i]);
            } else {
                assert(kept[i] == last);
                assert(entries[entries.len() - 1] == last);
            }
        }
        assert forall|i: int| 0 <= i < entries.len() && (#[trigger] entries[i]).is_selectable()
            implies kept.contains(entries[i]) by {
            if i < before.len() {
                assert(entries[i] == before[i]);
                assert(selectable(before).contains(before[i]));
                let j = choose|j: int|
                    0 <= j < selectable(before).len() && selectable(before)[j] == before[i];
                assert(kept[j] == entries[i]);
            } else {
                assert(kept[kept.len() - 1] == entries[i]);
            }
        }
    } else {
        lemma_selectable_step(entries, CardSetView { id: Seq::empty(), label: Seq::empty() });
        assert(entries =~= Seq::<CardSetView>::empty());
    }
}

impl CardSet {
    /// The entry of the menu with the value `value` and the text `label`.
    pub fn from_parts(value: Option<String>, label: String) -> (set: CardSet)
        ensures
            set@ == CardSetView::of_parts(value.deep_view(), label@),
    {
        match value {
            Some(id) => CardSet { id, label },
            None => CardSet { id: String::new(), label },
        }
    }

    /// Reads the entry that the `option` element `element` stands for.
    pub fn new(element: &Element<'_>) -> (set: CardSet)
        ensures
            set@ == CardSetView::of_element(element@),
    {
        Self::from_parts(element.attr("value"), element.text())
    }

    /// Whether the entry stands for a set that can be chosen.
    pub fn is_selectable(&self) -> (selectable: bool)
        ensures
            selectable == self@.is_selectable(),
    {
        !self.id.as_str().is_empty()
    }
}

/// Keeps the entries that stand for a set and drops the others, those with
/// the empty identifier. The order stays.
pub fn retain_selectable(entries: Vec<CardSet>) -> (sets: Vec<CardSet>)
    ensures
        sets.deep_view() == selectable(entries.deep_view()),
{
    let mut sets: Vec<CardSet> = Vec::new();
    let ghost all = entries.deep_view();
    let ghost keep = |entry: CardSetView| entry.is_selectable();
    let mut i: usize = 0;
    let n: usize = entries.len();
    proof {
        assert(all.take(0) =~= Seq::<CardSetView>::empty());
        reveal(Seq::filter);
    }
    while i < n
        invariant
            i <= n,
            n == entries.len(),
            entries.deep_view() == all,
            keep == |entry: CardSetView| entry.is_selectable(),
            sets.deep_view() == all.take(i as int).filter(keep),
        decreases n - i,
    {
        proof {
            reveal(Seq::filter);
            assert(all.take(i as int + 1).drop_last() =~= all.take(i as int));
            assert(all.take(i as int + 1).last() == entries@[i as int]@);
        }
        if entries[i].is_selectable() {
            let ghost before = sets.deep_view();
            let set = CardSet { id: entries[i].id.clone(), label: entries[i].label.clone() };
            sets.push(set);
            assert(sets.deep_view() =~= before.push(entries@[i as int]@));
        }
        i += 1;
    }
    assert(all.take(n as int) =~= all);
    sets
}

} // verus!
