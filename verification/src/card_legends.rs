//! The executable card registry.

use vstd::prelude::*;
use std::collections::HashMap;
use crate::address::Address;
use crate::card::{CardData, CardView};
use crate::model::RegistryView;

verus! {

broadcast use vstd::std_specs::hash::group_hash_axioms;

/// Why a mint was rejected.
#[derive(Clone, Copy, Debug, PartialEq, Eq, Structural)]
pub enum MintError {
    /// Every identifier has been issued: the counter is at its maximum.
    CounterOverflow,
}

/// The identifier that follows `current_counter`, or `CounterOverflow` when
/// there is none left.
pub fn next_nonce(current_counter: u64) -> (r: Result<u64, MintError>)
    ensures
        r is Ok <==> current_counter < u64::MAX,
        r matches Ok(nonce) ==> nonce == current_counter + 1,
        r matches Err(e) ==> e == MintError::CounterOverflow,
{
    if current_counter == u64::MAX {
        Err(MintError::CounterOverflow)
    } else {
        Ok(current_counter + 1)
    }
}

/// The operations of a card collection, with what each of them guarantees.
///
/// Identifiers are handed out in order, starting at 1, and are never reused
/// or skipped; a card, once minted, is never changed or removed. The state
/// of a collection is its view, a [`RegistryView`], and it is well formed at
/// all times.
pub trait CardLegendsContract: View<V = RegistryView> + Sized {
    /// Creates the registry of a new collection, with nothing minted.
    fn init(collection_name: Vec<u8>, collection_ticker: Vec<u8>) -> (registry: Self)
        ensures
            registry@ == RegistryView::init(collection_name@, collection_ticker@),
            registry@.wf(),
    ;

    /// Mints a card for `to` under the next identifier and returns that
    /// identifier. When the identifiers are exhausted the mint is rejected
    /// and the registry is left as it was.
    fn mint_card(
        &mut self,
        to: &Address,
        card_name: Vec<u8>,
        rarity: u8,
        power: u32,
    ) -> (r: Result<u64, MintError>)
        ensures
            r is Ok <==> old(self)@.can_mint(),
            r matches Ok(nonce) ==> {
                &&& nonce == old(self)@.card_counter + 1
                &&& final(self)@ == old(self)@.mint(
                    (CardView { name: card_name@, rarity, power, owner: *to }),
                )
            },
            r matches Err(e) ==> e == MintError::CounterOverflow && final(self)@ == old(self)@,
            final(self)@.wf(),
    ;

    /// The card minted under `nonce`, or `None` when that identifier was
    /// never issued.
    fn get_card(&self, nonce: u64) -> (card: Option<CardData>)
        ensures
            card is Some <==> 1 <= nonce <= self@.card_counter,
            match card {
                Some(c) => self@.get_card(nonce) == Some(c@),
                None => self@.get_card(nonce) is None,
            },
            self@.wf(),
    ;

    /// The identifiers of all cards that belong to `player`, in ascending
    /// order. Every identifier issued so far is looked at once.
    fn get_player_cards(&self, player: &Address) -> (ids: Vec<u64>)
        ensures
            self@.is_player_listing(*player, ids@),
            self@.wf(),
    ;

    /// The name the collection was created with.
    fn collection_name(&self) -> (name: &Vec<u8>)
        ensures
            name@ == self@.collection_name,
    ;

    /// The ticker the collection was created with.
    fn collection_ticker(&self) -> (ticker: &Vec<u8>)
        ensures
            ticker@ == self@.collection_ticker,
    ;

    /// The highest identifier issued so far, which is also the number of
    /// cards minted.
    fn card_counter(&self) -> (counter: u64)
        ensures
            counter == self@.card_counter,
            self@.wf(),
    ;
}

/// The issue counter together with the cards issued under it.
struct CardStore {
    card_counter: u64,
    card_collection: HashMap<u64, CardData>,
}

impl CardStore {
    spec fn cards(&self) -> Map<u64, CardView> {
        self.card_collection@.map_values(|card: CardData| card@)
    }

    fn empty() -> (store: CardStore)
        ensures
            store.card_counter == 0,
            store.cards() == Map::<u64, CardView>::empty(),
    {
        let store = CardStore { card_counter: 0, card_collection: HashMap::new() };
        assert(store.cards() =~= Map::<u64, CardView>::empty());
        store
    }
}

/// A card collection held in memory: its name and ticker, the issue
/// counter, and every card minted so far under its identifier.
pub struct CardRegistry {
    collection_name: Vec<u8>,
    collection_ticker: Vec<u8>,
    store: CardStore,
}

impl View for CardRegistry {
    type V = RegistryView;

    closed spec fn view(&self) -> RegistryView {
        RegistryView {
            collection_name: self.collection_name@,
            collection_ticker: self.collection_ticker@,
            card_counter: self.store.card_counter,
            cards: self.store.cards(),
        }
    }
}

impl CardRegistry {
    /// Every registry is well formed at all times: the identifiers it holds
    /// are exactly `1..=card_counter`.
    #[verifier::type_invariant]
    pub open spec fn wf(&self) -> bool {
        self@.wf()
    }
}

impl CardLegendsContract for CardRegistry {
    fn init(collection_name: Vec<u8>, collection_ticker: Vec<u8>) -> (registry: Self) {
        CardRegistry { collection_name, collection_ticker, store: CardStore::empty() }
    }

    fn mint_card(
        &mut self,
        to: &Address,
        card_name: Vec<u8>,
        rarity: u8,
        power: u32,
    ) -> (r: Result<u64, MintError>) {
        proof {
            use_type_invariant(&*self);
        }
        let current_counter = self.store.card_counter;
        assert(self@.cards == self.store.cards());
        match next_nonce(current_counter) {
            Ok(new_nonce) => {
                let card_data = CardData { name: card_name, rarity, power, owner: *to };
                let mut store = CardStore::empty();
                std::mem::swap(&mut store, &mut self.store);
                let ghost before = store.cards();
                store.card_collection.insert(new_nonce, card_data);
                store.card_counter = new_nonce;
                assert(store.cards() =~= before.insert(new_nonce, card_data@));
                assert forall|id: u64| #[trigger]
                    store.cards().contains_key(id) <==> 1 <= id <= new_nonce by {
                    assert(before.contains_key(id) <==> 1 <= id <= current_counter);
                }
                self.store = store;
                Ok(new_nonce)
            },
            Err(e) => Err(e),
        }
    }

    fn get_card(&self, nonce: u64) -> (card: Option<CardData>) {
        proof {
            use_type_invariant(self);
        }
        match self.store.card_collection.get(&nonce) {
            Some(card) => Some(card.clone()),
            None => None,
        }
    }

    fn get_player_cards(&self, player: &Address) -> (ids: Vec<u64>) {
        proof {
            use_type_invariant(self);
        }
        let mut player_cards: Vec<u64> = Vec::new();
        let total_cards = self.store.card_counter;
        let mut nonce: u64 = 0;
        while nonce < total_cards
            invariant
                self@.wf(),
                total_cards == self.store.card_counter,
                nonce <= total_cards,
                forall|i: int, j: int|
                    0 <= i < j < player_cards@.len() ==> player_cards@[i] < player_cards@[j],
                forall|i: int| 0 <= i < player_cards@.len() ==> player_cards@[i] <= nonce,
                forall|id: u64|
                    player_cards@.contains(id) <==> id <= nonce && self@.owns(*player, id),
            decreases total_cards - nonce,
        {
            nonce += 1;
            let ghost scanned = player_cards@;
            if let Some(card) = self.store.card_collection.get(&nonce) {
                if card.owner == *player {
                    player_cards.push(nonce);
                }
            }
            assert forall|id: u64|
                player_cards@.contains(id) <==> id <= nonce && self@.owns(*player, id) by {
                if player_cards@.contains(id) {
                    let i = choose|i: int| 0 <= i < player_cards@.len() && player_cards@[i] == id;
                    if i < scanned.len() {
                        assert(scanned.contains(id));
                    }
                }
                if id <= nonce && self@.owns(*player, id) {
                    if id < nonce {
                        assert(scanned.contains(id));
                        let i = choose|i: int| 0 <= i < scanned.len() && scanned[i] == id;
                        assert(player_cards@[i] == id);
                    } else {
                        assert(player_cards@[player_cards@.len() - 1] == id);
                    }
                }
            }
        }
        player_cards
    }

    fn collection_name(&self) -> (name: &Vec<u8>) {
        &self.collection_name
    }

    fn collection_ticker(&self) -> (ticker: &Vec<u8>) {
        &self.collection_ticker
    }

    fn card_counter(&self) -> (counter: u64) {
        proof {
            use_type_invariant(self);
        }
        self.store.card_counter
    }
}

} // verus!
