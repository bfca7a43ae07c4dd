use kasino::card::CardSuit;
use kasino::card::PlayingCard;
use kasino::outcome::Outcome;
use kasino::outcome::compute_outcome;
use kasino::wallet::MAX_BET;
use kasino::wallet::MIN_BET;
use kasino::wallet::Wallet;

fn card(suit: CardSuit, value: u8) -> PlayingCard {
    PlayingCard::new(suit, value)
}

/// A dealer hand in its table shape: first card, hole marker, then the rest.
fn dealer_hand(values: &[u8]) -> Vec<PlayingCard> {
    let mut hand = vec![card(CardSuit::Diamond, values[0]), PlayingCard::hole_card()];
    for (k, v) in values.iter().enumerate().skip(1) {
        hand.push(card(if k % 2 == 0 { CardSuit::Club } else { CardSuit::Spade }, *v));
    }
    hand
}

#[test]
fn new_wallet_starts_at_minimum_bet() {
    let w = Wallet::new(100);
    assert_eq!(w.balance, 100);
    assert_eq!(w.bet, MIN_BET);
}

#[test]
fn raise_bet_steps_up() {
    let mut w = Wallet::new(100);
    w.raise_bet();
    assert_eq!(w.bet, 2);
    assert_eq!(w.balance, 100);
}

#[test]
fn raise_bet_is_a_noop_at_max_bet() {
    let mut w = Wallet::new(100);
    for _ in 0..15 {
        w.raise_bet();
    }
    assert_eq!(w.bet, MAX_BET);
    w.raise_bet();
    assert_eq!(w.bet, MAX_BET);
}

#[test]
fn raise_bet_is_a_noop_beyond_the_balance() {
    let mut w = Wallet::new(5);
    for _ in 0..10 {
        w.raise_bet();
    }
    assert_eq!(w.bet, 5);
    w.raise_bet();
    assert_eq!(w.bet, 5);
}

#[test]
fn lower_bet_steps_down_and_stops_at_min() {
    let mut w = Wallet::new(100);
    w.raise_bet();
    w.raise_bet();
    assert_eq!(w.bet, 3);
    w.lower_bet();
    assert_eq!(w.bet, 2);
    w.lower_bet();
    assert_eq!(w.bet, MIN_BET);
    w.lower_bet();
    assert_eq!(w.bet, MIN_BET);
}

#[test]
fn place_bet_debits_the_balance() {
    let mut w = Wallet::new(100);
    assert_eq!(w.place_bet(), Ok(()));
    assert_eq!(w.balance, 99);
    assert_eq!(w.bet, 1);
}

#[test]
fn place_bet_fails_on_a_short_balance() {
    let mut w = Wallet::new(0);
    assert_eq!(w.place_bet(), Err(kasino::BlackjackError::InsufficientFunds));
    assert_eq!(w.balance, 0);
}

#[test]
fn place_bet_allows_the_exact_balance() {
    let mut w = Wallet::new(1);
    assert_eq!(w.place_bet(), Ok(()));
    assert_eq!(w.balance, 0);
}

#[test]
fn settlement_player_win_pays_double() {
    let player = vec![card(CardSuit::Heart, 10), card(CardSuit::Spade, 9)];
    let dealer = dealer_hand(&[10, 8]);
    let outcome = compute_outcome(&player, &dealer);
    assert_eq!(outcome, Outcome::PlayerWin);
    let mut w = Wallet::new(100);
    w.place_bet().unwrap();
    assert_eq!(w.balance, 99);
    w.settle(outcome);
    assert_eq!(w.balance, 101);
}

#[test]
fn settlement_player_bust_forfeits() {
    let player = vec![
        card(CardSuit::Heart, 10),
        card(CardSuit::Spade, 10),
        card(CardSuit::Club, 5),
    ];
    let dealer = dealer_hand(&[10, 8]);
    let outcome = compute_outcome(&player, &dealer);
    assert_eq!(outcome, Outcome::PlayerBust);
    let mut w = Wallet::new(100);
    w.place_bet().unwrap();
    w.settle(outcome);
    assert_eq!(w.balance, 99);
}

#[test]
fn settlement_dealer_bust_pays_double() {
    let player = vec![card(CardSuit::Heart, 10), card(CardSuit::Spade, 5)];
    let dealer = dealer_hand(&[10, 6, 10]);
    let outcome = compute_outcome(&player, &dealer);
    assert_eq!(outcome, Outcome::DealerBust);
    let mut w = Wallet::new(50);
    w.place_bet().unwrap();
    w.settle(outcome);
    assert_eq!(w.balance, 51);
}

#[test]
fn settlement_double_natural_pushes() {
    let player = vec![card(CardSuit::Heart, 1), card(CardSuit::Spade, 13)];
    let dealer = dealer_hand(&[1, 10]);
    let outcome = compute_outcome(&player, &dealer);
    assert_eq!(outcome, Outcome::DoubleNatural);
    let mut w = Wallet::new(100);
    w.place_bet().unwrap();
    w.settle(outcome);
    assert_eq!(w.balance, 100);
}

#[test]
fn settlement_player_natural_pays_triple() {
    let player = vec![card(CardSuit::Heart, 1), card(CardSuit::Spade, 13)];
    let dealer = dealer_hand(&[10, 8]);
    let outcome = compute_outcome(&player, &dealer);
    assert_eq!(outcome, Outcome::PlayerNatural);
    let mut w = Wallet::new(100);
    w.place_bet().unwrap();
    w.settle(outcome);
    assert_eq!(w.balance, 102);
}

#[test]
fn settlement_dealer_natural_forfeits() {
    let player = vec![card(CardSuit::Heart, 10), card(CardSuit::Spade, 9)];
    let dealer = dealer_hand(&[1, 10]);
    let outcome = compute_outcome(&player, &dealer);
    assert_eq!(outcome, Outcome::DealerNatural);
    let mut w = Wallet::new(100);
    w.place_bet().unwrap();
    w.settle(outcome);
    assert_eq!(w.balance, 99);
}

#[test]
fn settlement_equal_totals_push() {
    let player = vec![card(CardSuit::Heart, 10), card(CardSuit::Spade, 9)];
    let dealer = dealer_hand(&[10, 9]);
    let outcome = compute_outcome(&player, &dealer);
    assert_eq!(outcome, Outcome::Push);
    let mut w = Wallet::new(100);
    w.place_bet().unwrap();
    w.settle(outcome);
    assert_eq!(w.balance, 100);
}

#[test]
fn settlement_dealer_higher_total_forfeits() {
    let player = vec![card(CardSuit::Heart, 10), card(CardSuit::Spade, 8)];
    let dealer = dealer_hand(&[10, 9]);
    let outcome = compute_outcome(&player, &dealer);
    assert_eq!(outcome, Outcome::DealerWin);
    let mut w = Wallet::new(100);
    w.place_bet().unwrap();
    w.settle(outcome);
    assert_eq!(w.balance, 99);
}

#[test]
fn settlement_twenty_one_in_three_cards_is_no_natural() {
    // 21 on three cards pushes against a dealer 21 made of two real cards
    let player = vec![
        card(CardSuit::Heart, 7),
        card(CardSuit::Spade, 7),
        card(CardSuit::Club, 7),
    ];
    let dealer = dealer_hand(&[10, 4, 7]);
    assert_eq!(compute_outcome(&player, &dealer), Outcome::Push);
    // but loses to a dealer natural
    let natural_dealer = dealer_hand(&[1, 10]);
    assert_eq!(compute_outcome(&player, &natural_dealer), Outcome::DealerNatural);
}

#[test]
fn settlement_scales_with_the_bet() {
    let player = vec![card(CardSuit::Heart, 10), card(CardSuit::Spade, 9)];
    let dealer = dealer_hand(&[10, 8]);
    let outcome = compute_outcome(&player, &dealer);
    let mut w = Wallet::new(100);
    for _ in 0..4 {
        w.raise_bet();
    }
    assert_eq!(w.bet, 5);
    w.place_bet().unwrap();
    assert_eq!(w.balance, 95);
    w.settle(outcome);
    assert_eq!(w.balance, 105);
}
