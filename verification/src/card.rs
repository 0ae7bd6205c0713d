//! The card record and its mathematical view.

use vstd::prelude::*;
use vstd::std_specs::cmp::PartialEqSpecImpl;
use crate::address::Address;

verus! {

/// What a card is, independently of how its bytes are held in memory.
pub struct CardView {
    pub name: Seq<u8>,
    pub rarity: u8,
    pub power: u32,
    pub owner: Address,
}

/// A collectible card as it is kept in the registry.
///
/// The identifier of a card is the key under which the registry holds it and
/// is not part of the record. `rarity` is nominally 1 (common), 2 (rare),
/// 3 (epic) or 4 (legendary); any value is stored as given.
#[derive(Debug)]
pub struct CardData {
    pub name: Vec<u8>,
    pub rarity: u8,
    pub power: u32,
    pub owner: Address,
}

impl View for CardData {
    type V = CardView;

    open spec fn view(&self) -> CardView {
        CardView { name: self.name@, rarity: self.rarity, power: self.power, owner: self.owner }
    }
}

impl Clone for CardData {
    fn clone(&self) -> (copy: CardData)
        ensures
            copy@ == self@,
    {
        CardData {
            name: self.name.clone(),
            rarity: self.rarity,
            power: self.power,
            owner: self.owner,
        }
    }
}

impl PartialEq for CardData {
    fn eq(&self, other: &CardData) -> (r: bool) {
        let same = self.name == other.name && self.rarity == other.rarity && self.power
            == other.power && self.owner == other.owner;
        proof {
            if same {
                assert(self.name@ =~= other.name@);
            }
        }
        same
    }
}

impl Eq for CardData {}

impl PartialEqSpecImpl for CardData {
    open spec fn obeys_eq_spec() -> bool {
        true
    }

    open spec fn eq_spec(&self, other: &CardData) -> bool {
        self@ == other@
    }
}

} // verus!
