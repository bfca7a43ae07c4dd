//! Settlement: the outcome of a finished round, evaluated from the two
//! final hands, and the payout each outcome is worth.

use vstd::prelude::*;
use crate::card::PlayingCard;
use crate::hand::hand_value;
use crate::hand::hand_value_spec;
use crate::hand::is_dealer_natural;
use crate::hand::is_dealer_natural_spec;
use crate::hand::is_natural;
use crate::hand::is_natural_spec;

verus! {

/// The eight settlement outcomes, in the order the table tries them.
#[derive(Copy, Clone, Debug, PartialEq, Eq, Structural)]
pub enum Outcome {
    PlayerBust,
    DealerBust,
    DoubleNatural,
    PlayerNatural,
    DealerNatural,
    Push,
    PlayerWin,
    DealerWin,
}

/// The settlement table, first matching row wins: player bust loses; then
/// dealer bust pays double; a natural on both sides pushes; a player
/// natural alone pays triple; a dealer natural alone loses; equal totals
/// push; the higher total wins double; anything else loses.
pub open spec fn outcome_spec(player: Seq<PlayingCard>, dealer: Seq<PlayingCard>) -> Outcome {
    if hand_value_spec(player) > 21 {
        Outcome::PlayerBust
    } else if hand_value_spec(dealer) > 21 {
        Outcome::DealerBust
    } else if is_natural_spec(player) && is_dealer_natural_spec(dealer) {
        Outcome::DoubleNatural
    } else if is_natural_spec(player) {
        Outcome::PlayerNatural
    } else if is_dealer_natural_spec(dealer) {
        Outcome::DealerNatural
    } else if hand_value_spec(player) == hand_value_spec(dealer) {
        Outcome::Push
    } else if hand_value_spec(player) > hand_value_spec(dealer) {
        Outcome::PlayerWin
    } else {
        Outcome::DealerWin
    }
}

/// The multiple of the bet returned to the balance for each outcome. The
/// bet itself was already debited when it was placed, so 0 forfeits it,
/// 1 pushes, 2 wins even money, and 3 is the blackjack premium.
pub open spec fn payout_multiplier(o: Outcome) -> int {
    match o {
        Outcome::PlayerBust => 0,
        Outcome::DealerBust => 2,
        Outcome::DoubleNatural => 1,
        Outcome::PlayerNatural => 3,
        Outcome::DealerNatural => 0,
        Outcome::Push => 1,
        Outcome::PlayerWin => 2,
        Outcome::DealerWin => 0,
    }
}

/// Evaluates the settlement table on the two final hands.
pub fn compute_outcome(player: &Vec<PlayingCard>, dealer: &Vec<PlayingCard>) -> (o: Outcome)
    requires
        10 * player@.len() + 10 <= u32::MAX,
        10 * dealer@.len() + 10 <= u32::MAX,
    ensures
        o == outcome_spec(player@, dealer@),
{
    let pv = hand_value(player);
    let dv = hand_value(dealer);
    if pv > 21 {
        Outcome::PlayerBust
    } else if dv > 21 {
        Outcome::DealerBust
    } else if is_natural(player) && is_dealer_natural(dealer) {
        Outcome::DoubleNatural
    } else if is_natural(player) {
        Outcome::PlayerNatural
    } else if is_dealer_natural(dealer) {
        Outcome::DealerNatural
    } else if pv == dv {
        Outcome::Push
    } else if pv > dv {
        Outcome::PlayerWin
    } else {
        Outcome::DealerWin
    }
}

} // verus!
