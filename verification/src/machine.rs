//! The round state machine: phases, input events, the automatic on-entry
//! steps, and the invariants one round keeps. All mutation of the game
//! state happens here, driven by discrete input events and by the
//! automatic steps that resolve between them.

use vstd::prelude::*;
use vstd::multiset::Multiset;
use vstd::multiset::group_multiset_axioms;
use vstd::seq_lib::group_to_multiset_ensures;
use crate::card::CardSuit;
use crate::card::PlayingCard;
use crate::card::all_real;
use crate::deck::Deck;
use crate::deck::lemma_standard_deck_distinct;
use crate::deck::standard_deck;
use crate::hand::dealer_real_cards;
use crate::hand::dealer_real_count;
use crate::hand::dealer_shape;
use crate::hand::hand_value;
use crate::hand::hand_value_spec;
use crate::hand::is_natural;
use crate::hand::is_natural_spec;
use crate::hand::lemma_dealer_min_base;
use crate::hand::lemma_real_hand_min_base;
use crate::outcome::Outcome;
use crate::outcome::compute_outcome;
use crate::outcome::outcome_spec;
use crate::outcome::payout_multiplier;
use crate::wallet::Wallet;
use crate::BlackjackError;

verus! {

/// The phases of a round. PreGame, ChangeBet, PlayerTurn, GameEnd and
/// CleanUp sit idle awaiting input; the others resolve automatically, one
/// on-entry step at a time. There is no terminal phase: the machine cycles
/// through rounds indefinitely.
#[derive(Copy, Clone, Debug, PartialEq, Eq, Structural)]
pub enum BlackjackState {
    PreGame,
    ChangeBet,
    InitialDraw,
    PlayerTurn,
    PlayerDraw,
    DealerTurn,
    DealerDraw,
    GameEnd,
    CleanUp,
}

/// The discrete input events the presentation layer feeds the machine.
/// Each is meaningful only in specific phases; elsewhere it is a silent
/// no-op, not an error.
#[derive(Copy, Clone, Debug, PartialEq, Eq, Structural)]
pub enum InputEvent {
    Start,
    ConfirmBet,
    RaiseBet,
    LowerBet,
    Hit,
    Stand,
    Advance,
}

/// The single mutable aggregate of a game: current phase, remaining deck,
/// both hands, the wallet, and the outcome recorded at the end of the
/// round. Created once and reset (not recreated) between rounds.
pub struct RoundState {
    pub phase: BlackjackState,
    pub deck: Deck,
    pub player_hand: Vec<PlayingCard>,
    pub dealer_hand: Vec<PlayingCard>,
    pub wallet: Wallet,
    pub outcome: Option<Outcome>,
}

impl RoundState {
    /// Cards dealt from the deck so far this round: both hand lengths,
    /// the hole-card marker not counted, since it never left the deck.
    pub open spec fn dealt(&self) -> int {
        self.player_hand@.len() + dealer_real_count(self.dealer_hand@)
    }

    /// Card conservation: every card is in exactly one place, still in
    /// the deck or dealt to a hand; the hole-card marker came from
    /// nowhere and counts for neither.
    pub open spec fn conservation(&self) -> bool {
        self.deck@.len() + self.dealt() == 52
    }

    /// What each phase guarantees about the table: hand lengths follow
    /// the dealing order (player first, then the dealer up to 3 slots),
    /// turns only start once dealing is complete, a drawing or turn phase
    /// is only ever entered while the player is not bust (so the deck
    /// cannot run dry), and the recorded outcome exists exactly in
    /// GameEnd, where it matches the settlement table on the final hands.
    pub open spec fn phase_wf(&self) -> bool {
        let p = self.player_hand@.len() as int;
        let d = self.dealer_hand@.len() as int;
        match self.phase {
            BlackjackState::PreGame => p == 0 && d == 0 && self.outcome is None,
            BlackjackState::ChangeBet => p == 0 && d == 0 && self.outcome is None,
            BlackjackState::InitialDraw => p <= 2 && d <= 3 && (d >= 1 ==> p == 2)
                && self.outcome is None,
            BlackjackState::PlayerDraw => ((p <= 1 && d == 0) || (p >= 2 && d == 3
                && hand_value_spec(self.player_hand@) <= 21)) && self.outcome is None,
            BlackjackState::DealerDraw => ((p == 2 && d <= 2) || (p >= 2 && d >= 3
                && hand_value_spec(self.player_hand@) <= 21
                && hand_value_spec(self.dealer_hand@) < 17)) && self.outcome is None,
            BlackjackState::PlayerTurn => p >= 2 && d == 3 && self.outcome is None,
            BlackjackState::DealerTurn => p >= 2 && d >= 3
                && hand_value_spec(self.player_hand@) <= 21 && self.outcome is None,
            BlackjackState::GameEnd => p >= 2 && d >= 3 && self.outcome == Some(
                outcome_spec(self.player_hand@, self.dealer_hand@),
            ),
            BlackjackState::CleanUp => p == 0 && d == 0 && self.outcome is None,
        }
    }

    /// Every card on the table, wherever it sits: still in the deck, in
    /// the player's hand, or among the dealer's real cards.
    pub open spec fn table_cards(&self) -> Multiset<PlayingCard> {
        self.deck@.to_multiset().add(self.player_hand@.to_multiset()).add(
            dealer_real_cards(self.dealer_hand@).to_multiset(),
        )
    }

    /// The machine's full invariant: a bounded wager, real cards
    /// everywhere but the dealer's hole slot, card conservation both by
    /// count and by content (the table always holds exactly the 52
    /// distinct cards of a full deck), and the per-phase guarantees.
    /// Established by `new` and preserved by every event and step.
    pub open spec fn wf(&self) -> bool {
        &&& self.wallet.wf()
        &&& all_real(self.deck@)
        &&& all_real(self.player_hand@)
        &&& dealer_shape(self.dealer_hand@)
        &&& self.conservation()
        &&& self.table_cards() == standard_deck().to_multiset()
        &&& self.phase_wf()
    }

    /// Which states resolve on their own: the dealing and drawing phases,
    /// the dealer's turn, and a player turn whose entry conditions (a
    /// natural, or a bust) already decide it.
    pub open spec fn is_auto_phase(&self) -> bool {
        match self.phase {
            BlackjackState::InitialDraw => true,
            BlackjackState::PlayerDraw => true,
            BlackjackState::DealerDraw => true,
            BlackjackState::DealerTurn => true,
            BlackjackState::PlayerTurn => is_natural_spec(self.player_hand@)
                || hand_value_spec(self.player_hand@) > 21,
            _ => false,
        }
    }
}

/// The cards on the table are the same in both states.
pub open spec fn same_cards(a: RoundState, b: RoundState) -> bool {
    a.deck@ == b.deck@ && a.player_hand@ == b.player_hand@ && a.dealer_hand@ == b.dealer_hand@
}

/// Nothing observable differs between the two states.
pub open spec fn same_state(a: RoundState, b: RoundState) -> bool {
    a.phase == b.phase && same_cards(a, b) && a.wallet == b.wallet && a.outcome == b.outcome
}

/// Whether the transition table has a row for this event in this phase;
/// everywhere else the event is a silent no-op. An input reaching
/// PlayerTurn while a natural or a bust is still pending resolution is
/// stale and ignored as well.
pub open spec fn event_applies(s: RoundState, ev: InputEvent) -> bool {
    match s.phase {
        BlackjackState::PreGame => ev is Start || ev is ConfirmBet,
        BlackjackState::ChangeBet => ev is RaiseBet || ev is LowerBet || ev is ConfirmBet,
        BlackjackState::PlayerTurn => (ev is Hit || ev is Stand) && !s.is_auto_phase(),
        BlackjackState::GameEnd => ev is Advance,
        BlackjackState::CleanUp => ev is Advance,
        _ => false,
    }
}

/// Termination measure for the automatic steps: dominated by the deck
/// (every real draw shrinks it), then by the cards still missing from the
/// initial deal, then by the still missing hole-card marker, and finally
/// by a rank over the phases a step can pass through without dealing.
pub open spec fn auto_measure(s: RoundState) -> int {
    6 * s.deck@.len() + 2 * (if s.dealt() < 5 {
        5 - s.dealt()
    } else {
        0
    }) + (if s.dealer_hand@.len() < 2 {
        4int
    } else {
        0int
    }) + match s.phase {
        BlackjackState::InitialDraw => 3int,
        BlackjackState::PlayerTurn => 2int,
        BlackjackState::DealerTurn => 1int,
        _ => 0int,
    }
}

/// The state after entering GameEnd: the outcome of the two final hands
/// is recorded once, and its payout applied to the balance; the cards
/// stay on the table for display until cleanup.
pub open spec fn settles_to(pre: RoundState, post: RoundState) -> bool {
    let o = outcome_spec(pre.player_hand@, pre.dealer_hand@);
    let pay = payout_multiplier(o) * pre.wallet.bet;
    &&& post.phase is GameEnd
    &&& post.outcome == Some(o)
    &&& same_cards(pre, post)
    &&& post.wallet.bet == pre.wallet.bet
    &&& (pre.wallet.balance + pay <= u64::MAX ==> post.wallet.balance == pre.wallet.balance
        + pay)
    &&& (pre.wallet.balance + pay > u64::MAX ==> post.wallet.balance == u64::MAX)
}

/// Moving one card from a pile into a hand only moves it within the
/// table: the combined multiset of the two does not change.
proof fn lemma_move_card(pile: Seq<PlayingCard>, hand: Seq<PlayingCard>, i: int)
    requires
        0 <= i < pile.len(),
    ensures
        pile.remove(i).to_multiset().add(hand.push(pile[i]).to_multiset())
            == pile.to_multiset().add(hand.to_multiset()),
{
    broadcast use group_to_multiset_ensures;
    broadcast use group_multiset_axioms;

    let c = pile[i];
    assert(pile.remove(i).to_multiset() =~= pile.to_multiset().remove(c));
    assert(hand.push(c).to_multiset() =~= hand.to_multiset().insert(c));
    assert(pile.contains(c));
    assert(pile.to_multiset().count(c) > 0);
    assert(pile.to_multiset().remove(c).add(hand.to_multiset().insert(c)) =~= pile.to_multiset()
        .add(hand.to_multiset()));
}

/// Appending a card to the dealer's hand anywhere but the hole slot
/// appends it to the dealer's real cards.
proof fn lemma_dealer_real_push(d: Seq<PlayingCard>, c: PlayingCard)
    requires
        d.len() != 1,
    ensures
        dealer_real_cards(d.push(c)) == dealer_real_cards(d).push(c),
{
    if d.len() >= 2 {
        assert(d.push(c).remove(1) =~= d.remove(1).push(c));
    } else {
        assert(d.push(c) =~= d.push(c));
    }
}

/// Card conservation, as every event and step preserves it: the deck and
/// the two hands together always account for exactly the 52 cards.
/// Counting raw hand lengths the sum is 53 once the face-down marker
/// occupies its slot, since the marker never came from the deck; counting
/// dealt cards only, it is 52 at every point of every round.
pub proof fn lemma_card_conservation(s: RoundState)
    requires
        s.wf(),
    ensures
        s.deck@.len() + s.player_hand@.len() + dealer_real_count(s.dealer_hand@) == 52,
        s.dealer_hand@.len() >= 2 ==> s.deck@.len() + s.player_hand@.len()
            + s.dealer_hand@.len() == 53,
        s.dealer_hand@.len() < 2 ==> s.deck@.len() + s.player_hand@.len()
            + s.dealer_hand@.len() == 52,
{
}

/// While the invariant holds no card sits in two places: the deck and
/// both hands are each free of duplicate (suit, rank) pairs, and no card
/// appears in two of them at once.
pub proof fn lemma_no_duplicate_cards(s: RoundState)
    requires
        s.wf(),
    ensures
        s.deck@.no_duplicates(),
        s.player_hand@.no_duplicates(),
        s.dealer_hand@.no_duplicates(),
        forall|c: PlayingCard| !(s.deck@.contains(c) && s.player_hand@.contains(c)),
        forall|c: PlayingCard| !(s.deck@.contains(c) && s.dealer_hand@.contains(c)),
        forall|c: PlayingCard| !(s.player_hand@.contains(c) && s.dealer_hand@.contains(c)),
{
    broadcast use group_multiset_axioms;
    broadcast use group_to_multiset_ensures;

    lemma_standard_deck_distinct();
    standard_deck().lemma_multiset_has_no_duplicates();
    let deck_ms = s.deck@.to_multiset();
    let player_ms = s.player_hand@.to_multiset();
    let real_ms = dealer_real_cards(s.dealer_hand@).to_multiset();

    // each card occurs at most once on the whole table, so at most once
    // in each pile, and never in two piles
    assert forall|c: PlayingCard|
        deck_ms.count(c) + player_ms.count(c) + real_ms.count(c) <= 1 by {
        assert(s.table_cards().count(c) == deck_ms.count(c) + player_ms.count(c) + real_ms.count(
            c,
        ));
        if standard_deck().to_multiset().count(c) > 0 {
            assert(standard_deck().contains(c));
        }
    }
    assert forall|x: PlayingCard| s.deck@.to_multiset().contains(x)
        implies s.deck@.to_multiset().count(x) == 1 by {
        assert(deck_ms.count(x) + player_ms.count(x) + real_ms.count(x) <= 1);
    }
    s.deck@.lemma_multiset_has_no_duplicates_conv();
    assert forall|x: PlayingCard| s.player_hand@.to_multiset().contains(x)
        implies s.player_hand@.to_multiset().count(x) == 1 by {
        assert(deck_ms.count(x) + player_ms.count(x) + real_ms.count(x) <= 1);
    }
    s.player_hand@.lemma_multiset_has_no_duplicates_conv();
    assert forall|x: PlayingCard| dealer_real_cards(s.dealer_hand@).to_multiset().contains(x)
        implies dealer_real_cards(s.dealer_hand@).to_multiset().count(x) == 1 by {
        assert(deck_ms.count(x) + player_ms.count(x) + real_ms.count(x) <= 1);
    }
    dealer_real_cards(s.dealer_hand@).lemma_multiset_has_no_duplicates_conv();

    // the dealer's raw hand adds only the hole marker, which is alone in
    // its slot and equals no real card
    let d = s.dealer_hand@;
    let r = dealer_real_cards(d);
    assert forall|i: int, j: int| 0 <= i < j < d.len() implies d[i] != d[j] by {
        if j == 1 {
            assert(d[i].is_real() && d[j].is_hole());
        } else if i == 1 {
            assert(d[i].is_hole() && d[j].is_real());
        } else if d.len() >= 2 {
            let ri = if i < 1 {
                i
            } else {
                i - 1
            };
            assert(d[i] == r[ri]);
            assert(d[j] == r[j - 1]);
            assert(ri != j - 1);
        }
    }

    // a real card held by the dealer is among the dealer's real cards
    assert forall|c: PlayingCard| s.dealer_hand@.contains(c) && !c.is_hole() implies
        #[trigger] r.contains(c) by {
        let k = choose|k: int| 0 <= k < d.len() && d[k] == c;
        assert(k != 1);
        if k < 1 {
            assert(r[k] == c);
        } else {
            assert(r[k - 1] == c);
        }
    }
    assert forall|c: PlayingCard| !(s.deck@.contains(c) && s.dealer_hand@.contains(c)) by {
        if s.deck@.contains(c) && s.dealer_hand@.contains(c) {
            let m = choose|m: int| 0 <= m < s.deck@.len() && s.deck@[m] == c;
            assert(s.deck@[m].is_real());
            assert(r.contains(c));
            assert(deck_ms.count(c) + player_ms.count(c) + real_ms.count(c) <= 1);
        }
    }
    assert forall|c: PlayingCard| !(s.player_hand@.contains(c) && s.dealer_hand@.contains(c)) by {
        if s.player_hand@.contains(c) && s.dealer_hand@.contains(c) {
            let m = choose|m: int| 0 <= m < s.player_hand@.len() && s.player_hand@[m] == c;
            assert(s.player_hand@[m].is_real());
            assert(r.contains(c));
            assert(deck_ms.count(c) + player_ms.count(c) + real_ms.count(c) <= 1);
        }
    }
    assert forall|c: PlayingCard| !(s.deck@.contains(c) && s.player_hand@.contains(c)) by {
        if s.deck@.contains(c) && s.player_hand@.contains(c) {
            assert(deck_ms.count(c) + player_ms.count(c) + real_ms.count(c) <= 1);
        }
    }
}

impl RoundState {
    /// A fresh machine: full shuffled deck (driven by `seed`), empty
    /// hands, the given starting balance, the wager at its minimum, idle
    /// in PreGame.
    pub fn new(balance: u64, seed: u64) -> (s: RoundState)
        ensures
            s.wf(),
            s.phase is PreGame,
            s.wallet.balance == balance,
            s.wallet.bet == crate::wallet::MIN_BET,
            s.player_hand@.len() == 0,
            s.dealer_hand@.len() == 0,
            s.deck@.len() == 52,
            s.outcome is None,
    {
        let s = RoundState {
            phase: BlackjackState::PreGame,
            deck: Deck::new(seed),
            player_hand: Vec::new(),
            dealer_hand: Vec::new(),
            wallet: Wallet::new(balance),
            outcome: None,
        };
        proof {
            broadcast use group_multiset_axioms;
            broadcast use group_to_multiset_ensures;

            // with both hands empty the table is just the deck
            assert(forall|c: PlayingCard|
                s.player_hand@.to_multiset().count(c) == 0 && dealer_real_cards(
                    s.dealer_hand@,
                ).to_multiset().count(c) == 0);
            assert(s.table_cards() =~= s.deck@.to_multiset());
        }
        s
    }

    /// Feeds one input event to the machine, per the transition table:
    /// Start commits the bet and begins dealing (or reports
    /// InsufficientFunds and stays put); ConfirmBet toggles between
    /// PreGame and ChangeBet; RaiseBet/LowerBet adjust the wager within
    /// its bounds; Hit and Stand resolve the player's turn; Advance moves
    /// a finished round through cleanup (rebuilding and reshuffling the
    /// deck) and back to PreGame. An event outside its phase is a silent
    /// no-op.
    pub fn handle_event(&mut self, ev: InputEvent) -> (r: Result<(), BlackjackError>)
        requires
            old(self).wf(),
        ensures
            final(self).wf(),
            r is Err <==> (old(self).phase is PreGame && ev is Start && old(self).wallet.balance
                < old(self).wallet.bet),
            r is Err ==> r == Err::<(), BlackjackError>(BlackjackError::InsufficientFunds)
                && same_state(*old(self), *final(self)),
            !event_applies(*old(self), ev) ==> same_state(*old(self), *final(self)) && r is Ok,
            old(self).phase is PreGame && ev is Start
                && old(self).wallet.balance >= old(self).wallet.bet ==> {
                &&& final(self).phase is InitialDraw
                &&& final(self).wallet.balance == old(self).wallet.balance - old(self).wallet.bet
                &&& final(self).wallet.bet == old(self).wallet.bet
                &&& same_cards(*old(self), *final(self))
                &&& final(self).outcome is None
            },
            old(self).phase is PreGame && ev is ConfirmBet ==> {
                &&& final(self).phase is ChangeBet
                &&& same_cards(*old(self), *final(self))
                &&& final(self).wallet == old(self).wallet
                &&& final(self).outcome is None
            },
            old(self).phase is ChangeBet && ev is RaiseBet ==> {
                &&& final(self).phase is ChangeBet
                &&& same_cards(*old(self), *final(self))
                &&& final(self).wallet.bet == old(self).wallet.raised_bet()
                &&& final(self).wallet.balance == old(self).wallet.balance
            },
            old(self).phase is ChangeBet && ev is LowerBet ==> {
                &&& final(self).phase is ChangeBet
                &&& same_cards(*old(self), *final(self))
                &&& final(self).wallet.bet == old(self).wallet.lowered_bet()
                &&& final(self).wallet.balance == old(self).wallet.balance
            },
            old(self).phase is ChangeBet && ev is ConfirmBet ==> {
                &&& final(self).phase is PreGame
                &&& same_cards(*old(self), *final(self))
                &&& final(self).wallet == old(self).wallet
            },
            old(self).phase is PlayerTurn && !old(self).is_auto_phase() && ev is Hit ==> {
                &&& final(self).phase is PlayerDraw
                &&& same_cards(*old(self), *final(self))
                &&& final(self).wallet == old(self).wallet
            },
            old(self).phase is PlayerTurn && !old(self).is_auto_phase() && ev is Stand ==> {
                &&& final(self).phase is DealerTurn
                &&& same_cards(*old(self), *final(self))
                &&& final(self).wallet == old(self).wallet
            },
            old(self).phase is GameEnd && ev is Advance ==> {
                &&& final(self).phase is CleanUp
                &&& final(self).player_hand@.len() == 0
                &&& final(self).dealer_hand@.len() == 0
                &&& final(self).deck@.to_multiset() == standard_deck().to_multiset()
                &&& final(self).deck@.len() == 52
                &&& final(self).wallet == old(self).wallet
                &&& final(self).outcome is None
            },
            old(self).phase is CleanUp && ev is Advance ==> {
                &&& final(self).phase is PreGame
                &&& same_cards(*old(self), *final(self))
                &&& final(self).wallet == old(self).wallet
            },
    {
        match self.phase {
            BlackjackState::PreGame => {
                match ev {
                    InputEvent::Start => {
                        let placed = self.wallet.place_bet();
                        match placed {
                            Ok(()) => {
                                self.phase = BlackjackState::InitialDraw;
                                Ok(())
                            },
                            Err(e) => Err(e),
                        }
                    },
                    InputEvent::ConfirmBet => {
                        self.phase = BlackjackState::ChangeBet;
                        Ok(())
                    },
                    _ => Ok(()),
                }
            },
            BlackjackState::ChangeBet => {
                match ev {
                    InputEvent::RaiseBet => {
                        self.wallet.raise_bet();
                        Ok(())
                    },
                    InputEvent::LowerBet => {
                        self.wallet.lower_bet();
                        Ok(())
                    },
                    InputEvent::ConfirmBet => {
                        self.phase = BlackjackState::PreGame;
                        Ok(())
                    },
                    _ => Ok(()),
                }
            },
            BlackjackState::PlayerTurn => {
                match ev {
                    InputEvent::Hit => {
                        if !self.turn_pending() {
                            self.phase = BlackjackState::PlayerDraw;
                        }
                        Ok(())
                    },
                    InputEvent::Stand => {
                        if !self.turn_pending() {
                            self.phase = BlackjackState::DealerTurn;
                        }
                        Ok(())
                    },
                    _ => Ok(()),
                }
            },
            BlackjackState::GameEnd => {
                match ev {
                    InputEvent::Advance => {
                        self.deck.reset();
                        self.player_hand = Vec::new();
                        self.dealer_hand = Vec::new();
                        self.outcome = None;
                        self.phase = BlackjackState::CleanUp;
                        proof {
                            broadcast use group_multiset_axioms;
                            broadcast use group_to_multiset_ensures;

                            // with both hands cleared the table is just
                            // the rebuilt deck
                            assert(forall|c: PlayingCard|
                                self.player_hand@.to_multiset().count(c) == 0 && dealer_real_cards(
                                    self.dealer_hand@,
                                ).to_multiset().count(c) == 0);
                            assert(self.table_cards() =~= self.deck@.to_multiset());
                        }
                        Ok(())
                    },
                    _ => Ok(()),
                }
            },
            BlackjackState::CleanUp => {
                match ev {
                    InputEvent::Advance => {
                        self.phase = BlackjackState::PreGame;
                        Ok(())
                    },
                    _ => Ok(()),
                }
            },
            _ => Ok(()),
        }
    }

    /// Cards dealt so far, as the routing threshold counts them: the
    /// hole-card marker is not a dealt card.
    fn dealt_cards(&self) -> (n: usize)
        requires
            self.wf(),
        ensures
            n as int == self.dealt(),
    {
        let d = self.dealer_hand.len();
        let dr = if d >= 2 {
            d - 1
        } else {
            d
        };
        self.player_hand.len() + dr
    }

    /// Entering GameEnd: computes the outcome of the two final hands once
    /// and applies its payout.
    fn finish_round(&mut self)
        requires
            old(self).wf(),
            old(self).phase is PlayerTurn || old(self).phase is DealerTurn,
        ensures
            final(self).wf(),
            settles_to(*old(self), *final(self)),
    {
        let o = compute_outcome(&self.player_hand, &self.dealer_hand);
        self.wallet.settle(o);
        self.outcome = Some(o);
        self.phase = BlackjackState::GameEnd;
    }

    /// Performs one automatic on-entry step and reports whether anything
    /// happened. InitialDraw routes by hand lengths; PlayerDraw and
    /// DealerDraw deal one card into their hand (the dealer's second is
    /// the face-down marker, taken from nowhere, never from the deck); an
    /// entered PlayerTurn resolves a natural (play passes to the dealer)
    /// or a bust (straight to settlement) and otherwise sits idle;
    /// DealerTurn applies the fixed dealer policy, hitting below 17 and
    /// standing at or above, and settles the round when it stands, busts,
    /// or holds a natural. The machine's invariant keeps the deck ahead
    /// of every draw, so a step never fails.
    pub fn step(&mut self) -> (progressed: bool)
        requires
            old(self).wf(),
        ensures
            final(self).wf(),
            progressed == old(self).is_auto_phase(),
            final(self).wallet.bet == old(self).wallet.bet,
            !progressed ==> same_state(*old(self), *final(self)),
            progressed ==> auto_measure(*final(self)) < auto_measure(*old(self)),
            old(self).phase is InitialDraw ==> {
                &&& same_cards(*old(self), *final(self))
                &&& final(self).wallet == old(self).wallet
                &&& final(self).outcome is None
                &&& (old(self).player_hand@.len() < 2 ==> final(self).phase is PlayerDraw)
                &&& (old(self).player_hand@.len() == 2 && old(self).dealer_hand@.len() < 3
                    ==> final(self).phase is DealerDraw)
                &&& (old(self).player_hand@.len() == 2 && old(self).dealer_hand@.len() == 3
                    ==> final(self).phase is PlayerTurn)
            },
            old(self).phase is PlayerDraw ==> {
                &&& (exists|i: int|
                    0 <= i < old(self).deck@.len() && final(self).player_hand@ == old(
                        self,
                    ).player_hand@.push(old(self).deck@[i]) && final(self).deck@ == old(
                        self,
                    ).deck@.remove(i))
                &&& final(self).dealer_hand@ == old(self).dealer_hand@
                &&& final(self).wallet == old(self).wallet
                &&& final(self).outcome is None
                &&& final(self).phase == (if old(self).dealt() + 1 < 5 {
                    BlackjackState::InitialDraw
                } else {
                    BlackjackState::PlayerTurn
                })
            },
            old(self).phase is DealerDraw && old(self).dealer_hand@.len() == 1 ==> {
                &&& final(self).deck@ == old(self).deck@
                &&& final(self).player_hand@ == old(self).player_hand@
                &&& final(self).dealer_hand@ == old(self).dealer_hand@.push(
                    PlayingCard { suit: CardSuit::Heart, value: 0 },
                )
                &&& final(self).wallet == old(self).wallet
                &&& final(self).outcome is None
                &&& final(self).phase is InitialDraw
            },
            old(self).phase is DealerDraw && old(self).dealer_hand@.len() != 1 ==> {
                &&& (exists|i: int|
                    0 <= i < old(self).deck@.len() && final(self).dealer_hand@ == old(
                        self,
                    ).dealer_hand@.push(old(self).deck@[i]) && final(self).deck@ == old(
                        self,
                    ).deck@.remove(i))
                &&& final(self).player_hand@ == old(self).player_hand@
                &&& final(self).wallet == old(self).wallet
                &&& final(self).outcome is None
                &&& final(self).phase == (if old(self).dealt() + 1 < 5 {
                    BlackjackState::InitialDraw
                } else {
                    BlackjackState::DealerTurn
                })
            },
            old(self).phase is PlayerTurn && is_natural_spec(old(self).player_hand@) ==> {
                &&& same_cards(*old(self), *final(self))
                &&& final(self).wallet == old(self).wallet
                &&& final(self).outcome is None
                &&& final(self).phase is DealerTurn
            },
            old(self).phase is PlayerTurn && !is_natural_spec(old(self).player_hand@)
                && hand_value_spec(old(self).player_hand@) > 21 ==> settles_to(
                *old(self),
                *final(self),
            ),
            old(self).phase is DealerTurn && hand_value_spec(old(self).dealer_hand@) >= 17
                ==> settles_to(*old(self), *final(self)),
            old(self).phase is DealerTurn && hand_value_spec(old(self).dealer_hand@) < 17 ==> {
                &&& same_cards(*old(self), *final(self))
                &&& final(self).wallet == old(self).wallet
                &&& final(self).outcome is None
                &&& final(self).phase is DealerDraw
            },
    {
        match self.phase {
            BlackjackState::InitialDraw => {
                if self.player_hand.len() < 2 {
                    self.phase = BlackjackState::PlayerDraw;
                } else if self.dealer_hand.len() < 3 {
                    self.phase = BlackjackState::DealerDraw;
                } else {
                    self.phase = BlackjackState::PlayerTurn;
                }
                true
            },
            BlackjackState::PlayerDraw => {
                proof {
                    lemma_real_hand_min_base(self.player_hand@);
                }
                let ghost deck0 = self.deck@;
                let ghost player0 = self.player_hand@;
                let t = self.dealt_cards();
                let card = self.deck.draw().unwrap();
                self.player_hand.push(card);
                proof {
                    let i = choose|i: int|
                        0 <= i < deck0.len() && card == deck0[i] && self.deck@ == deck0.remove(i);
                    lemma_move_card(deck0, player0, i);
                }
                self.phase = if t + 1 < 5 {
                    BlackjackState::InitialDraw
                } else {
                    BlackjackState::PlayerTurn
                };
                true
            },
            BlackjackState::DealerDraw => {
                let ghost dealer0 = self.dealer_hand@;
                if self.dealer_hand.len() == 1 {
                    self.dealer_hand.push(PlayingCard::hole_card());
                    self.phase = BlackjackState::InitialDraw;
                    proof {
                        // the marker lands in the hole slot, so the real
                        // cards, and with them the table, are unchanged
                        assert(dealer_real_cards(self.dealer_hand@) =~= dealer0);
                    }
                } else {
                    proof {
                        lemma_real_hand_min_base(self.player_hand@);
                        lemma_dealer_min_base(self.dealer_hand@);
                    }
                    let ghost deck0 = self.deck@;
                    let t = self.dealt_cards();
                    let card = self.deck.draw().unwrap();
                    self.dealer_hand.push(card);
                    proof {
                        broadcast use group_multiset_axioms;

                        let i = choose|i: int|
                            0 <= i < deck0.len() && card == deck0[i] && self.deck@ == deck0.remove(
                                i,
                            );
                        lemma_dealer_real_push(dealer0, card);
                        lemma_move_card(deck0, dealer_real_cards(dealer0), i);
                        // the moved card left the deck for the dealer's
                        // real cards; regroup the three piles by counts
                        assert forall|x: PlayingCard| #[trigger] self.table_cards().count(x)
                            == deck0.to_multiset().add(self.player_hand@.to_multiset()).add(
                            dealer_real_cards(dealer0).to_multiset(),
                        ).count(x) by {
                            assert(self.deck@.to_multiset().add(
                                dealer_real_cards(self.dealer_hand@).to_multiset(),
                            ).count(x) == deck0.to_multiset().add(
                                dealer_real_cards(dealer0).to_multiset(),
                            ).count(x));
                        }
                        assert(self.table_cards() =~= deck0.to_multiset().add(
                            self.player_hand@.to_multiset(),
                        ).add(dealer_real_cards(dealer0).to_multiset()));
                    }
                    self.phase = if t + 1 < 5 {
                        BlackjackState::InitialDraw
                    } else {
                        BlackjackState::DealerTurn
                    };
                }
                true
            },
            BlackjackState::PlayerTurn => {
                let natural = is_natural(&self.player_hand);
                if natural {
                    self.phase = BlackjackState::DealerTurn;
                    true
                } else {
                    let v = hand_value(&self.player_hand);
                    if v > 21 {
                        self.finish_round();
                        true
                    } else {
                        false
                    }
                }
            },
            BlackjackState::DealerTurn => {
                let v = hand_value(&self.dealer_hand);
                if v >= 17 {
                    self.finish_round();
                } else {
                    self.phase = BlackjackState::DealerDraw;
                }
                true
            },
            _ => false,
        }
    }

    /// Resolves every pending automatic step: dealing, turn checks, the
    /// dealer policy, and settlement run until the machine is idle again.
    /// This always terminates: every step shrinks the deck, fills a still
    /// missing slot of the initial deal, or strictly advances the round.
    pub fn run_auto(&mut self)
        requires
            old(self).wf(),
        ensures
            final(self).wf(),
            !final(self).is_auto_phase(),
            final(self).wallet.bet == old(self).wallet.bet,
            !old(self).is_auto_phase() ==> same_state(*old(self), *final(self)),
    {
        let ghost pre = *self;
        let mut progressed = self.step();
        while progressed
            invariant
                self.wf(),
                self.wallet.bet == pre.wallet.bet,
                !progressed ==> !self.is_auto_phase(),
                !pre.is_auto_phase() ==> same_state(pre, *self),
            decreases 2 * auto_measure(*self) + (if progressed { 1int } else { 0int }),
        {
            progressed = self.step();
        }
    }

    /// True while the player's turn still has a pending automatic
    /// resolution: a natural or a bust on entry.
    fn turn_pending(&self) -> (b: bool)
        requires
            self.wf(),
            self.phase is PlayerTurn,
        ensures
            b == self.is_auto_phase(),
    {
        let natural = is_natural(&self.player_hand);
        if natural {
            return true;
        }
        hand_value(&self.player_hand) > 21
    }
}

} // verus!
