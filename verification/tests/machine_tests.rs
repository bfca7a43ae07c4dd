use kasino::BlackjackError;
use kasino::hand::hand_value;
use kasino::machine::BlackjackState;
use kasino::machine::InputEvent;
use kasino::machine::RoundState;
use kasino::outcome::Outcome;
use kasino::outcome::compute_outcome;

/// Starts a round with balance 100 and the default bet of 1, on the first
/// seed whose opening hand is no natural, so that the machine sits idle in
/// the player's turn.
fn start_round_reaching_player_turn() -> RoundState {
    for seed in 0..20 {
        let mut rs = RoundState::new(100, seed);
        rs.handle_event(InputEvent::Start).unwrap();
        rs.run_auto();
        if rs.phase == BlackjackState::PlayerTurn {
            return rs;
        }
    }
    panic!("every probed seed dealt an opening natural");
}

fn counted_cards(rs: &RoundState) -> usize {
    rs.deck.len() + rs.player_hand.len() + rs.dealer_hand.len()
}

#[test]
fn a_fresh_machine_is_idle_in_pregame() {
    let rs = RoundState::new(100, 1);
    assert_eq!(rs.phase, BlackjackState::PreGame);
    assert_eq!(rs.wallet.balance, 100);
    assert_eq!(rs.wallet.bet, 1);
    assert_eq!(rs.deck.len(), 52);
    assert!(rs.player_hand.is_empty());
    assert!(rs.dealer_hand.is_empty());
    assert!(rs.outcome.is_none());
}

#[test]
fn start_without_funds_is_refused() {
    let mut rs = RoundState::new(0, 2);
    assert_eq!(rs.handle_event(InputEvent::Start), Err(BlackjackError::InsufficientFunds));
    assert_eq!(rs.phase, BlackjackState::PreGame);
    assert_eq!(rs.wallet.balance, 0);
}

#[test]
fn events_outside_their_phase_are_silent_noops() {
    let mut rs = RoundState::new(100, 3);
    for ev in [
        InputEvent::Hit,
        InputEvent::Stand,
        InputEvent::Advance,
        InputEvent::RaiseBet,
        InputEvent::LowerBet,
    ] {
        assert_eq!(rs.handle_event(ev), Ok(()));
        assert_eq!(rs.phase, BlackjackState::PreGame);
        assert_eq!(rs.wallet.balance, 100);
        assert_eq!(rs.wallet.bet, 1);
        assert_eq!(rs.deck.len(), 52);
    }
}

#[test]
fn confirm_bet_toggles_the_betting_phase() {
    let mut rs = RoundState::new(100, 4);
    rs.handle_event(InputEvent::ConfirmBet).unwrap();
    assert_eq!(rs.phase, BlackjackState::ChangeBet);
    rs.handle_event(InputEvent::ConfirmBet).unwrap();
    assert_eq!(rs.phase, BlackjackState::PreGame);
}

#[test]
fn bet_adjustments_clamp_at_both_bounds() {
    let mut rs = RoundState::new(100, 5);
    rs.handle_event(InputEvent::ConfirmBet).unwrap();
    for _ in 0..12 {
        rs.handle_event(InputEvent::RaiseBet).unwrap();
    }
    assert_eq!(rs.wallet.bet, 10);
    rs.handle_event(InputEvent::LowerBet).unwrap();
    assert_eq!(rs.wallet.bet, 9);
    for _ in 0..12 {
        rs.handle_event(InputEvent::LowerBet).unwrap();
    }
    assert_eq!(rs.wallet.bet, 1);
    assert_eq!(rs.wallet.balance, 100);
}

#[test]
fn raising_the_bet_stops_at_the_balance() {
    let mut rs = RoundState::new(5, 6);
    rs.handle_event(InputEvent::ConfirmBet).unwrap();
    for _ in 0..10 {
        rs.handle_event(InputEvent::RaiseBet).unwrap();
    }
    assert_eq!(rs.wallet.bet, 5);
}

#[test]
fn dealing_reaches_the_player_turn_with_a_hole_card() {
    let rs = start_round_reaching_player_turn();
    assert_eq!(rs.wallet.balance, 99);
    assert_eq!(rs.wallet.bet, 1);
    assert_eq!(rs.player_hand.len(), 2);
    assert_eq!(rs.dealer_hand.len(), 3);
    assert!(!rs.dealer_hand[0].is_hole_card());
    assert!(rs.dealer_hand[1].is_hole_card());
    assert!(!rs.dealer_hand[2].is_hole_card());
    assert!(!rs.player_hand[0].is_hole_card());
    assert!(!rs.player_hand[1].is_hole_card());
    assert!(rs.outcome.is_none());
}

#[test]
fn cards_are_conserved_under_both_counts() {
    let rs = start_round_reaching_player_turn();
    // counting the hole marker, which never left the deck: one extra card
    assert_eq!(counted_cards(&rs), 53);
    // counting dealt cards only: exactly the 52 of the deck
    assert_eq!(counted_cards(&rs) - 1, 52);
}

#[test]
fn hands_never_share_a_card() {
    let mut rs = start_round_reaching_player_turn();
    rs.handle_event(InputEvent::Stand).unwrap();
    rs.run_auto();
    for p in &rs.player_hand {
        for d in &rs.dealer_hand {
            assert_ne!(p, d);
        }
    }
    for i in 0..rs.dealer_hand.len() {
        for j in 0..i {
            assert_ne!(rs.dealer_hand[i], rs.dealer_hand[j]);
        }
    }
}

#[test]
fn full_round_hitting_until_bust() {
    let mut rs = start_round_reaching_player_turn();
    assert_eq!(rs.wallet.balance, 99);
    let mut hits = 0;
    while rs.phase == BlackjackState::PlayerTurn {
        rs.handle_event(InputEvent::Hit).unwrap();
        rs.run_auto();
        hits += 1;
        assert!(hits < 50);
        assert_eq!(counted_cards(&rs), 53);
    }
    assert_eq!(rs.phase, BlackjackState::GameEnd);
    assert!(hand_value(&rs.player_hand) > 21);
    assert_eq!(rs.outcome, Some(Outcome::PlayerBust));
    assert_eq!(rs.wallet.balance, 99);
    rs.handle_event(InputEvent::Advance).unwrap();
    assert_eq!(rs.phase, BlackjackState::CleanUp);
    assert!(rs.player_hand.is_empty());
    assert!(rs.dealer_hand.is_empty());
    assert_eq!(rs.deck.len(), 52);
    assert!(rs.outcome.is_none());
    rs.handle_event(InputEvent::Advance).unwrap();
    assert_eq!(rs.phase, BlackjackState::PreGame);
}

#[test]
fn dealer_plays_to_seventeen_after_a_stand() {
    let mut rs = start_round_reaching_player_turn();
    rs.handle_event(InputEvent::Stand).unwrap();
    rs.run_auto();
    assert_eq!(rs.phase, BlackjackState::GameEnd);
    assert!(hand_value(&rs.dealer_hand) >= 17);
    let expected = compute_outcome(&rs.player_hand, &rs.dealer_hand);
    assert_eq!(rs.outcome, Some(expected));
    assert_eq!(counted_cards(&rs), 53);
}

#[test]
fn a_second_round_plays_after_cleanup() {
    let mut rs = start_round_reaching_player_turn();
    rs.handle_event(InputEvent::Stand).unwrap();
    rs.run_auto();
    rs.handle_event(InputEvent::Advance).unwrap();
    rs.handle_event(InputEvent::Advance).unwrap();
    assert_eq!(rs.phase, BlackjackState::PreGame);
    let balance_before = rs.wallet.balance;
    if rs.handle_event(InputEvent::Start) == Ok(()) {
        rs.run_auto();
        assert_eq!(rs.wallet.balance, balance_before - rs.wallet.bet);
        assert!(
            rs.phase == BlackjackState::PlayerTurn || rs.phase == BlackjackState::GameEnd
        );
        assert_eq!(counted_cards(&rs), 53);
    } else {
        panic!("the balance cannot be short after a completed round");
    }
}

#[test]
fn same_seed_replays_the_same_round() {
    let mut a = RoundState::new(100, 9);
    let mut b = RoundState::new(100, 9);
    a.handle_event(InputEvent::Start).unwrap();
    a.run_auto();
    b.handle_event(InputEvent::Start).unwrap();
    b.run_auto();
    assert_eq!(a.phase, b.phase);
    assert_eq!(a.player_hand, b.player_hand);
    assert_eq!(a.dealer_hand, b.dealer_hand);
}
