//! Rules engine for a single-player casino blackjack game.
//!
//! The engine owns a shuffled 52-card deck, deals cards to a player and a
//! dealer, evaluates hand values with soft-ace handling, advances a
//! turn-based round state machine in response to discrete input events, and
//! settles bets. Randomness is injected through a seeded generator so that
//! every round is reproducible from its seed. Presentation (rendering,
//! audio, input devices) lives outside this crate and only observes the
//! state the engine exposes.

use vstd::prelude::*;

pub mod card;
pub mod deck;
pub mod hand;
pub mod machine;
pub mod outcome;
pub mod wallet;

verus! {

/// The engine's failure kinds. Drawing from an exhausted deck is an
/// invariant violation under correct round-size bookkeeping but is still a
/// defined, checked condition; committing a bet above the balance is
/// recoverable and leaves the machine where it was.
#[derive(Copy, Clone, Debug, PartialEq, Eq, Structural)]
pub enum BlackjackError {
    EmptyDeck,
    InsufficientFunds,
}

} // verus!
