//! The 52-card deck: built in suit-major, rank-ascending order, shuffled
//! uniformly, and drained one uniformly chosen card at a time. The deck
//! owns a seeded random generator, so a whole session is reproducible from
//! the seed it was created with.

use vstd::prelude::*;
use vstd::arithmetic::div_mod::lemma_fundamental_div_mod;
use vstd::arithmetic::div_mod::lemma_fundamental_div_mod_converse;
use vstd::seq_lib::group_to_multiset_ensures;
use rand::Rng;
use rand::SeedableRng;
use rand::seq::SliceRandom;
use rand::rngs::StdRng;
use crate::card::CardSuit;
use crate::card::PlayingCard;
use crate::card::all_real;
use crate::BlackjackError;

verus! {

#[verifier::external_type_specification]
#[verifier::external_body]
pub struct ExStdRng(StdRng);

/// Relies on rand::SeedableRng::seed_from_u64: builds a generator
/// deterministically from the seed; never fails.
#[verifier::external_body]
fn rng_from_seed(seed: u64) -> StdRng {
    SeedableRng::seed_from_u64(seed)
}

/// Relies on rand::seq::SliceRandom::shuffle: reorders the slice in place
/// by element swaps (Fisher-Yates), so exactly the original cards remain.
#[verifier::external_body]
fn shuffle_cards(cards: &mut Vec<PlayingCard>, rng: &mut StdRng)
    ensures
        final(cards)@.to_multiset() == old(cards)@.to_multiset(),
        final(cards)@.len() == old(cards)@.len(),
{
    cards.shuffle(rng);
}

/// Relies on rand::Rng::gen_range: returns a uniformly chosen value of the
/// given range, here an index below `len`. It panics only on an empty
/// range, which the precondition rules out.
#[verifier::external_body]
fn random_index(rng: &mut StdRng, len: usize) -> (i: usize)
    requires
        len > 0,
    ensures
        i < len,
{
    rng.gen_range(0..len)
}

pub open spec fn suit_of_index(k: int) -> CardSuit {
    if k == 0 {
        CardSuit::Heart
    } else if k == 1 {
        CardSuit::Diamond
    } else if k == 2 {
        CardSuit::Spade
    } else {
        CardSuit::Club
    }
}

pub open spec fn suit_index(suit: CardSuit) -> int {
    match suit {
        CardSuit::Heart => 0,
        CardSuit::Diamond => 1,
        CardSuit::Spade => 2,
        CardSuit::Club => 3,
    }
}

/// The card at position `i` of the fresh, unshuffled deck: suit-major
/// (hearts, diamonds, spades, clubs), ranks ascending 1 through 13 within
/// each suit.
pub open spec fn standard_card(i: int) -> PlayingCard {
    PlayingCard { suit: suit_of_index(i / 13), value: (i % 13 + 1) as u8 }
}

/// The fresh deck layout: all 52 cards, suit-major, ranks ascending.
pub open spec fn standard_deck() -> Seq<PlayingCard> {
    Seq::new(52, |i: int| standard_card(i))
}

/// The fresh deck layout holds exactly 52 pairwise distinct real cards,
/// one of each suit and rank.
pub proof fn lemma_standard_deck_distinct()
    ensures
        standard_deck().len() == 52,
        standard_deck().no_duplicates(),
        all_real(standard_deck()),
        forall|c: PlayingCard| c.is_real() ==> standard_deck().contains(c),
{
    assert forall|i: int, j: int| 0 <= i < j < 52 implies standard_deck()[i]
        != standard_deck()[j] by {
        lemma_fundamental_div_mod(i, 13);
        lemma_fundamental_div_mod(j, 13);
        assert(0 <= i / 13 <= 3 && 0 <= j / 13 <= 3);
        if standard_card(i) == standard_card(j) {
            assert(i % 13 == j % 13);
            assert(i / 13 == j / 13);
            assert(false);
        }
    }
    assert forall|i: int| 0 <= i < 52 implies (#[trigger] standard_deck()[i]).is_real() by {
        lemma_fundamental_div_mod(i, 13);
    }
    assert forall|c: PlayingCard| c.is_real() implies standard_deck().contains(c) by {
        let i = 13 * suit_index(c.suit) + c.value - 1;
        lemma_fundamental_div_mod_converse(i, 13, suit_index(c.suit), c.value - 1);
        assert(standard_deck()[i] == c);
    }
}

/// Any reordering of the full deck still holds 52 pairwise distinct real
/// cards, one of each suit and rank: what a freshly shuffled deck offers.
pub proof fn lemma_full_deck_distinct(s: Seq<PlayingCard>)
    requires
        s.to_multiset() == standard_deck().to_multiset(),
    ensures
        s.len() == 52,
        s.no_duplicates(),
        all_real(s),
        forall|c: PlayingCard| c.is_real() ==> s.contains(c),
{
    broadcast use group_to_multiset_ensures;

    lemma_standard_deck_distinct();
    standard_deck().lemma_multiset_has_no_duplicates();
    s.lemma_multiset_has_no_duplicates_conv();
    assert(s.len() == s.to_multiset().len());
    assert(standard_deck().len() == standard_deck().to_multiset().len());
    assert forall|i: int| 0 <= i < s.len() implies (#[trigger] s[i]).is_real() by {
        assert(s.to_multiset().count(s[i]) > 0);
        assert(standard_deck().contains(s[i]));
    }
    assert forall|c: PlayingCard| c.is_real() implies s.contains(c) by {
        assert(standard_deck().to_multiset().count(c) > 0);
    }
}

/// An ordered pool of remaining cards plus the seeded generator that
/// shuffled them and picks each draw.
pub struct Deck {
    cards: Vec<PlayingCard>,
    rng: StdRng,
}

impl View for Deck {
    type V = Seq<PlayingCard>;

    closed spec fn view(&self) -> Seq<PlayingCard> {
        self.cards@
    }
}

/// Builds the 52 cards in suit-major, rank-ascending order.
fn fresh_cards() -> (cards: Vec<PlayingCard>)
    ensures
        cards@ == standard_deck(),
{
    let mut cards: Vec<PlayingCard> = Vec::new();
    let mut i: usize = 0;
    while i < 52
        invariant
            i <= 52,
            cards@.len() == i,
            forall|m: int| 0 <= m < i ==> cards@[m] == standard_card(m),
        decreases 52 - i,
    {
        let q = i / 13;
        let suit = if q == 0 {
            CardSuit::Heart
        } else if q == 1 {
            CardSuit::Diamond
        } else if q == 2 {
            CardSuit::Spade
        } else {
            CardSuit::Club
        };
        let value = (i % 13 + 1) as u8;
        cards.push(PlayingCard { suit, value });
        i = i + 1;
    }
    proof {
        assert(cards@ =~= standard_deck());
    }
    cards
}

impl Deck {
    /// Builds the full 52-card set and applies a uniform shuffle driven by
    /// a generator seeded from `seed`. Always yields exactly 52 distinct
    /// cards.
    pub fn new(seed: u64) -> (deck: Deck)
        ensures
            deck@.to_multiset() == standard_deck().to_multiset(),
            deck@.len() == 52,
            deck@.no_duplicates(),
            all_real(deck@),
    {
        let mut cards = fresh_cards();
        let mut rng = rng_from_seed(seed);
        shuffle_cards(&mut cards, &mut rng);
        proof {
            lemma_full_deck_distinct(cards@);
        }
        Deck { cards, rng }
    }

    /// Rebuilds the full 52-card set and reshuffles it, keeping the
    /// generator, so that one seed drives a whole session of rounds.
    pub fn reset(&mut self)
        ensures
            final(self)@.to_multiset() == standard_deck().to_multiset(),
            final(self)@.len() == 52,
            final(self)@.no_duplicates(),
            all_real(final(self)@),
    {
        let mut cards = fresh_cards();
        shuffle_cards(&mut cards, &mut self.rng);
        proof {
            lemma_full_deck_distinct(cards@);
        }
        self.cards = cards;
    }

    pub fn len(&self) -> (n: usize)
        ensures
            n == self@.len(),
    {
        self.cards.len()
    }

    /// Removes and returns one card chosen uniformly at random from the
    /// remaining cards; fails with EmptyDeck exactly when none remain.
    pub fn draw(&mut self) -> (r: Result<PlayingCard, BlackjackError>)
        ensures
            old(self)@.len() == 0 ==> r == Err::<PlayingCard, BlackjackError>(
                BlackjackError::EmptyDeck,
            ) && final(self)@ == old(self)@,
            old(self)@.len() > 0 ==> r is Ok && exists|i: int|
                0 <= i < old(self)@.len() && r == Ok::<PlayingCard, BlackjackError>(
                    old(self)@[i],
                ) && final(self)@ == old(self)@.remove(i),
    {
        if self.cards.len() == 0 {
            return Err(BlackjackError::EmptyDeck);
        }
        let i = random_index(&mut self.rng, self.cards.len());
        let card = self.cards.remove(i);
        Ok(card)
    }
}

} // verus!
