//! The wallet/bet ledger: player balance and current wager, bounded
//! adjustment of the wager, committing it at the start of a round, and
//! payout application at the end.

use vstd::prelude::*;
use crate::outcome::Outcome;
use crate::outcome::payout_multiplier;
use crate::BlackjackError;

verus! {

pub const BET_STEP: u64 = 1;

pub const MIN_BET: u64 = 1;

pub const MAX_BET: u64 = 10;

/// Player money and current wager. The wager always stays between MIN_BET
/// and MAX_BET. The balance may fall below the wager after a lost round;
/// committing such a wager is then refused.
pub struct Wallet {
    pub balance: u64,
    pub bet: u64,
}

impl Wallet {
    /// The wager keeps its bounds.
    pub open spec fn wf(&self) -> bool {
        MIN_BET <= self.bet <= MAX_BET
    }

    pub fn new(balance: u64) -> (w: Wallet)
        ensures
            w.wf(),
            w.balance == balance,
            w.bet == MIN_BET,
    {
        Wallet { balance, bet: MIN_BET }
    }

    /// The wager after a raise request: one step up, only if that stays
    /// within MAX_BET and within the balance; otherwise unchanged.
    pub open spec fn raised_bet(self) -> u64 {
        if self.bet + BET_STEP <= MAX_BET && self.bet + BET_STEP <= self.balance {
            (self.bet + BET_STEP) as u64
        } else {
            self.bet
        }
    }

    /// The wager after a lower request: one step down, only if that stays
    /// at or above MIN_BET; otherwise unchanged.
    pub open spec fn lowered_bet(self) -> u64 {
        if self.bet >= MIN_BET + BET_STEP {
            (self.bet - BET_STEP) as u64
        } else {
            self.bet
        }
    }

    /// Raises the wager by one step; a clamped adjustment, never an error:
    /// at MAX_BET, or when the raised wager would exceed the balance, this
    /// is a no-op.
    pub fn raise_bet(&mut self)
        requires
            old(self).wf(),
        ensures
            final(self).wf(),
            final(self).bet == old(self).raised_bet(),
            final(self).balance == old(self).balance,
    {
        if self.bet + BET_STEP <= MAX_BET && self.bet + BET_STEP <= self.balance {
            self.bet = self.bet + BET_STEP;
        }
    }

    /// Lowers the wager by one step; at MIN_BET this is a no-op.
    pub fn lower_bet(&mut self)
        requires
            old(self).wf(),
        ensures
            final(self).wf(),
            final(self).bet == old(self).lowered_bet(),
            final(self).balance == old(self).balance,
    {
        if self.bet >= MIN_BET + BET_STEP {
            self.bet = self.bet - BET_STEP;
        }
    }

    /// Commits the wager at the start of a round: debits it from the
    /// balance, or fails with InsufficientFunds exactly when the balance
    /// is short, leaving everything unchanged.
    pub fn place_bet(&mut self) -> (r: Result<(), BlackjackError>)
        requires
            old(self).wf(),
        ensures
            final(self).wf(),
            final(self).bet == old(self).bet,
            old(self).balance >= old(self).bet ==> r == Ok::<(), BlackjackError>(())
                && final(self).balance == old(self).balance - old(self).bet,
            old(self).balance < old(self).bet ==> r == Err::<(), BlackjackError>(
                BlackjackError::InsufficientFunds,
            ) && final(self).balance == old(self).balance,
    {
        if self.balance < self.bet {
            Err(BlackjackError::InsufficientFunds)
        } else {
            self.balance = self.balance - self.bet;
            Ok(())
        }
    }

    /// Applies the round's payout: the balance grows by the outcome's
    /// multiple of the wager, saturating at the integer limit; the wager
    /// itself never changes here.
    pub fn settle(&mut self, outcome: Outcome)
        requires
            old(self).wf(),
        ensures
            final(self).wf(),
            final(self).bet == old(self).bet,
            old(self).balance + payout_multiplier(outcome) * old(self).bet <= u64::MAX
                ==> final(self).balance == old(self).balance + payout_multiplier(outcome)
                * old(self).bet,
            old(self).balance + payout_multiplier(outcome) * old(self).bet > u64::MAX
                ==> final(self).balance == u64::MAX,
    {
        let amount: u64 = match outcome {
            Outcome::PlayerBust => 0,
            Outcome::DealerBust => self.bet + self.bet,
            Outcome::DoubleNatural => self.bet,
            Outcome::PlayerNatural => self.bet + self.bet + self.bet,
            Outcome::DealerNatural => 0,
            Outcome::Push => self.bet,
            Outcome::PlayerWin => self.bet + self.bet,
            Outcome::DealerWin => 0,
        };
        if self.balance <= u64::MAX - amount {
            self.balance = self.balance + amount;
        } else {
            self.balance = u64::MAX;
        }
    }
}

} // verus!
