//! The card model: suits, ranks, the dealer's hole-card marker, and the
//! mapping from a card to its sprite index.

use vstd::prelude::*;

verus! {

/// The four suits, in the order a fresh deck is laid out.
#[derive(Copy, Clone, Debug, PartialEq, Eq, Structural)]
pub enum CardSuit {
    Heart,
    Diamond,
    Spade,
    Club,
}

/// A playing card: a suit and a rank stored in `value`, from 1 (ace) up to
/// 13 (king). `value` 0 is reserved for the dealer's face-down hole-card
/// marker, which belongs to no real card and scores 0.
#[derive(Copy, Clone, Debug, PartialEq, Eq, Structural)]
pub struct PlayingCard {
    pub suit: CardSuit,
    pub value: u8,
}

impl PlayingCard {
    /// A card actually dealt from the deck: rank 1 (ace) through 13 (king).
    pub open spec fn is_real(self) -> bool {
        1 <= self.value <= 13
    }

    /// The face-down hole-card marker.
    pub open spec fn is_hole(self) -> bool {
        self.value == 0
    }

    /// Scoring value: ace 1, ranks 2-10 at face value, court cards 10,
    /// hole-card marker 0.
    pub open spec fn score(self) -> int {
        if self.value > 10 {
            10
        } else {
            self.value as int
        }
    }

    pub open spec fn is_ace(self) -> bool {
        self.value == 1
    }

    pub fn new(suit: CardSuit, value: u8) -> (c: PlayingCard)
        requires
            1 <= value <= 13,
        ensures
            c == (PlayingCard { suit, value }),
            c.is_real(),
    {
        PlayingCard { suit, value }
    }

    /// The marker appended to the dealer's hand in place of the face-down
    /// card. Its suit is never shown and does not matter.
    pub fn hole_card() -> (c: PlayingCard)
        ensures
            c.is_hole(),
            c.score() == 0,
            c == (PlayingCard { suit: CardSuit::Heart, value: 0 }),
    {
        PlayingCard { suit: CardSuit::Heart, value: 0 }
    }

    pub fn is_hole_card(&self) -> (b: bool)
        ensures
            b == self.is_hole(),
    {
        self.value == 0
    }
}

/// Every card of a sequence is a real card (rank 1 through 13), never the
/// hole-card marker.
pub open spec fn all_real(s: Seq<PlayingCard>) -> bool {
    forall|i: int| 0 <= i < s.len() ==> (#[trigger] s[i]).is_real()
}

/// The suit's display name.
pub open spec fn suit_name_spec(suit: CardSuit) -> Seq<char> {
    match suit {
        CardSuit::Heart => "Heart"@,
        CardSuit::Diamond => "Diamond"@,
        CardSuit::Spade => "Spade"@,
        CardSuit::Club => "Club"@,
    }
}

impl CardSuit {
    pub fn name(&self) -> (s: String)
        ensures
            s@ == suit_name_spec(*self),
    {
        match self {
            CardSuit::Heart => String::from_str("Heart"),
            CardSuit::Diamond => String::from_str("Diamond"),
            CardSuit::Spade => String::from_str("Spade"),
            CardSuit::Club => String::from_str("Club"),
        }
    }
}

/// Position of a real card's sprite in the 52-entry card sheet:
/// hearts at 0-12, diamonds at 13-25, spades at 26-38, clubs at 39-51,
/// each suit in rank order.
pub open spec fn asset_index_spec(card: PlayingCard) -> int {
    match card.suit {
        CardSuit::Heart => card.value - 1,
        CardSuit::Diamond => card.value + 12,
        CardSuit::Spade => card.value + 25,
        CardSuit::Club => card.value + 38,
    }
}

pub fn card_to_asset_index(card: &PlayingCard) -> (i: usize)
    requires
        card.is_real(),
    ensures
        i == asset_index_spec(*card),
        i < 52,
{
    match card.suit {
        CardSuit::Heart => (card.value - 1) as usize,
        CardSuit::Diamond => (card.value + 12) as usize,
        CardSuit::Spade => (card.value + 25) as usize,
        CardSuit::Club => (card.value + 38) as usize,
    }
}

} // verus!
