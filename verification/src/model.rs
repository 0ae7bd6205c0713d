//! The registry as a mathematical state machine, and the laws it obeys.
//!
//! The executable registry is stated against this model: every operation of
//! the registry is one of the transitions or queries below.

use vstd::prelude::*;
use crate::address::Address;
use crate::card::CardView;

verus! {

/// The state of a card registry: collection metadata, the issue counter and
/// every card issued so far, keyed by identifier.
#[verifier::ext_equal]
pub struct RegistryView {
    pub collection_name: Seq<u8>,
    pub collection_ticker: Seq<u8>,
    pub card_counter: u64,
    pub cards: Map<u64, CardView>,
}

impl RegistryView {
    /// The registry right after initialisation: nothing issued, counter zero.
    pub open spec fn init(collection_name: Seq<u8>, collection_ticker: Seq<u8>) -> RegistryView {
        RegistryView { collection_name, collection_ticker, card_counter: 0, cards: Map::empty() }
    }

    /// The identifiers issued so far are exactly `1..=card_counter`.
    pub open spec fn wf(self) -> bool {
        forall|id: u64| #[trigger] self.cards.contains_key(id) <==> 1 <= id <= self.card_counter
    }

    /// Whether one more card can be issued without exhausting the identifiers.
    pub open spec fn can_mint(self) -> bool {
        self.card_counter < u64::MAX
    }

    /// The identifier that the next mint allocates.
    pub open spec fn next_nonce(self) -> u64
        recommends
            self.can_mint(),
    {
        (self.card_counter + 1) as u64
    }

    /// The registry after issuing `card` under the next identifier.
    pub open spec fn mint(self, card: CardView) -> RegistryView
        recommends
            self.can_mint(),
    {
        RegistryView {
            collection_name: self.collection_name,
            collection_ticker: self.collection_ticker,
            card_counter: self.next_nonce(),
            cards: self.cards.insert(self.next_nonce(), card),
        }
    }

    /// The registry after issuing `cards` one after the other, first to last.
    pub open spec fn mint_all(self, cards: Seq<CardView>) -> RegistryView
        decreases cards.len(),
    {
        if cards.len() == 0 {
            self
        } else {
            self.mint_all(cards.drop_last()).mint(cards.last())
        }
    }

    /// The card stored under `nonce`, if that identifier has been issued.
    pub open spec fn get_card(self, nonce: u64) -> Option<CardView> {
        if self.cards.contains_key(nonce) {
            Some(self.cards[nonce])
        } else {
            None
        }
    }

    /// Whether `nonce` has been issued and its card belongs to `player`.
    pub open spec fn owns(self, player: Address, nonce: u64) -> bool {
        self.cards.contains_key(nonce) && self.cards[nonce].owner == player
    }

    /// Whether `ids` lists, in strictly ascending order, exactly the
    /// identifiers of the cards that belong to `player`.
    pub open spec fn is_player_listing(self, player: Address, ids: Seq<u64>) -> bool {
        &&& forall|i: int, j: int| 0 <= i < j < ids.len() ==> ids[i] < ids[j]
        &&& forall|id: u64| ids.contains(id) <==> self.owns(player, id)
    }
}

/// A fresh registry is well formed, has issued nothing and has counter zero.
pub proof fn lemma_init(collection_name: Seq<u8>, collection_ticker: Seq<u8>)
    ensures
        RegistryView::init(collection_name, collection_ticker).wf(),
        RegistryView::init(collection_name, collection_ticker).card_counter == 0,
        RegistryView::init(collection_name, collection_ticker).cards.dom() =~= Set::<u64>::empty(),
{
}

/// A mint advances the counter by exactly one, stores the card under the new
/// counter value, which was never used before, and leaves every earlier card
/// and the collection metadata as they were.
pub proof fn lemma_mint(reg: RegistryView, card: CardView)
    requires
        reg.wf(),
        reg.can_mint(),
    ensures
        reg.mint(card).wf(),
        reg.mint(card).card_counter == reg.card_counter + 1,
        !reg.cards.contains_key(reg.mint(card).card_counter),
        reg.mint(card).get_card(reg.mint(card).card_counter) == Some(card),
        forall|id: u64|
            reg.cards.contains_key(id) ==> reg.mint(card).get_card(id) == reg.get_card(id),
        reg.mint(card).collection_name == reg.collection_name,
        reg.mint(card).collection_ticker == reg.collection_ticker,
{
}

/// Issuing `cards` in order on a well-formed registry that has room for them
/// advances the counter by their number, keeps what was there, and stores the
/// k-th of them under the k-th identifier after the old counter.
pub proof fn lemma_mint_all(reg: RegistryView, cards: Seq<CardView>)
    requires
        reg.wf(),
        reg.card_counter + cards.len() <= u64::MAX,
    ensures
        reg.mint_all(cards).wf(),
        reg.mint_all(cards).card_counter == reg.card_counter + cards.len(),
        reg.mint_all(cards).collection_name == reg.collection_name,
        reg.mint_all(cards).collection_ticker == reg.collection_ticker,
        forall|id: u64|
            1 <= id <= reg.card_counter ==> reg.mint_all(cards).get_card(id) == reg.get_card(id),
        forall|k: int|
            0 <= k < cards.len() ==> reg.mint_all(cards).get_card(
                (reg.card_counter + 1 + k) as u64,
            ) == Some(#[trigger] cards[k]),
    decreases cards.len(),
{
    if cards.len() > 0 {
        let before = reg.mint_all(cards.drop_last());
        lemma_mint_all(reg, cards.drop_last());
        lemma_mint(before, cards.last());
        assert forall|k: int| 0 <= k < cards.len() implies reg.mint_all(cards).get_card(
            (reg.card_counter + 1 + k) as u64,
        ) == Some(#[trigger] cards[k]) by {
            if k < cards.len() - 1 {
                assert(cards.drop_last()[k] == cards[k]);
            }
        }
    }
}

/// After N successful mints on a fresh registry the counter is N and the
/// issued identifiers are exactly 1, .., N.
pub proof fn lemma_mints_issue_one_to_n(
    collection_name: Seq<u8>,
    collection_ticker: Seq<u8>,
    cards: Seq<CardView>,
)
    requires
        cards.len() <= u64::MAX,
    ensures
        RegistryView::init(collection_name, collection_ticker).mint_all(cards).card_counter
            == cards.len(),
        RegistryView::init(collection_name, collection_ticker).mint_all(cards).cards.dom()
            =~= Set::new(|id: u64| 1 <= id <= cards.len()),
{
    lemma_mint_all(RegistryView::init(collection_name, collection_ticker), cards);
}

/// The card read back under a minted identifier is the one that the mint
/// which produced that identifier was given, field for field.
pub proof fn lemma_minted_card_reads_back(
    collection_name: Seq<u8>,
    collection_ticker: Seq<u8>,
    cards: Seq<CardView>,
    nonce: u64,
)
    requires
        cards.len() <= u64::MAX,
        1 <= nonce <= cards.len(),
    ensures
        RegistryView::init(collection_name, collection_ticker).mint_all(cards).get_card(nonce)
            == Some(cards[nonce - 1]),
{
    lemma_mint_all(RegistryView::init(collection_name, collection_ticker), cards);
}

/// An identifier that was never minted, that is zero or any value above the
/// counter, reads as absent.
pub proof fn lemma_unminted_is_absent(reg: RegistryView, nonce: u64)
    requires
        reg.wf(),
        nonce == 0 || nonce > reg.card_counter,
    ensures
        reg.get_card(nonce) is None,
{
}

/// The listing of a player's cards is determined by the registry: any two
/// ascending listings of the same player's cards are the same sequence.
pub proof fn lemma_player_listing_is_unique(
    reg: RegistryView,
    player: Address,
    first: Seq<u64>,
    second: Seq<u64>,
)
    requires
        reg.is_player_listing(player, first),
        reg.is_player_listing(player, second),
    ensures
        first == second,
{
    lemma_ascending_same_elements(first, second);
}

/// Reads are repeatable: while nothing is minted, asking again for a card or
/// for a player's cards gives the same answer as before.
pub proof fn lemma_reads_are_repeatable(
    reg: RegistryView,
    nonce: u64,
    player: Address,
    first_card: Option<CardView>,
    second_card: Option<CardView>,
    first_ids: Seq<u64>,
    second_ids: Seq<u64>,
)
    requires
        first_card == reg.get_card(nonce),
        second_card == reg.get_card(nonce),
        reg.is_player_listing(player, first_ids),
        reg.is_player_listing(player, second_ids),
    ensures
        first_card == second_card,
        first_ids == second_ids,
{
    lemma_player_listing_is_unique(reg, player, first_ids, second_ids);
}

/// A player who owns no card has the empty listing.
pub proof fn lemma_listing_without_cards_is_empty(
    reg: RegistryView,
    player: Address,
    ids: Seq<u64>,
)
    requires
        reg.is_player_listing(player, ids),
        forall|id: u64| !reg.owns(player, id),
    ensures
        ids.len() == 0,
{
    if ids.len() > 0 {
        assert(ids.contains(ids[0]));
    }
}

/// Two strictly ascending sequences with the same elements are equal.
proof fn lemma_ascending_same_elements(a: Seq<u64>, b: Seq<u64>)
    requires
        forall|i: int, j: int| 0 <= i < j < a.len() ==> a[i] < a[j],
        forall|i: int, j: int| 0 <= i < j < b.len() ==> b[i] < b[j],
        forall|id: u64| a.contains(id) <==> b.contains(id),
    ensures
        a == b,
    decreases a.len(),
{
    if a.len() == 0 {
        if b.len() > 0 {
            assert(b.contains(b[0]));
        }
    } else {
        // Both end in the greatest element, which is the same for both.
        assert(a.contains(a.last()));
        assert(b.contains(a.last()));
        assert(b.contains(b.last()));
        assert(a.contains(b.last()));
        assert(a.last() == b.last());
        // What comes before it has the same elements on both sides.
        let a0 = a.drop_last();
        let b0 = b.drop_last();
        assert forall|id: u64| a0.contains(id) <==> b0.contains(id) by {
            if a0.contains(id) {
                let i = choose|i: int| 0 <= i < a0.len() && a0[i] == id;
                assert(a[i] == id);
                assert(b.contains(id));
                let j = choose|j: int| 0 <= j < b.len() && b[j] == id;
                assert(b0[j] == id);
            }
            if b0.contains(id) {
                let i = choose|i: int| 0 <= i < b0.len() && b0[i] == id;
                assert(b[i] == id);
                assert(a.contains(id));
                let j = choose|j: int| 0 <= j < a.len() && a[j] == id;
                assert(a0[j] == id);
            }
        }
        lemma_ascending_same_elements(a0, b0);
        assert(a =~= a0.push(a.last()));
        assert(b =~= b0.push(b.last()));
    }
}

} // verus!
