use engine::actions::Action;
use engine::cards::Card;
use engine::models::Game;
use engine::{ActionResult, GamePhase, Location, SpecialConditionType, StateChange, TurnPhase};

fn id(s: &str) -> String {
    String::from(s)
}

fn reason(r: &ActionResult) -> String {
    match r {
        ActionResult::Invalid { reason } => reason.clone(),
        ActionResult::Success { .. } => panic!("expected a rejection"),
    }
}

fn all_cards(g: &Game) -> Vec<Card> {
    let mut v: Vec<Card> = Vec::new();
    v.extend(g.deck.iter().copied());
    v.extend(g.field.iter().copied());
    for p in &g.players {
        v.extend(p.hand.iter().copied());
        v.extend(p.captured.gwang.iter().copied());
        v.extend(p.captured.yeol.iter().copied());
        v.extend(p.captured.meong.iter().copied());
        v.extend(p.captured.pi.iter().copied());
    }
    v
}

fn holds_catalog(g: &Game) -> bool {
    let have = all_cards(g);
    let all = Card::all();
    have.len() == all.len() && all.iter().all(|c| have.iter().filter(|d| *d == c).count() == 1)
}

/// A two-player game where player 0 holds SonghakPine and the field holds two
/// other January cards.
fn started_game() -> Game {
    let mut g = Game::new(id("g"), 2);
    let r = g.apply(Action::StartGame { player_count: 2 });
    assert!(matches!(r, ActionResult::Success { .. }));
    assert_eq!(g.game_phase, GamePhase::Starting);
    // dealt from the end: player 0, player 1, then the field
    let cards = vec![
        Card::SakuraCherry,
        Card::SonghakPine2,
        Card::SonghakCrane,
        Card::MaejouPlum,
        Card::SonghakPine,
    ];
    assert!(g.deal(cards, 1, 2).is_ok());
    g
}

#[test]
fn new_game_has_named_players() {
    let g = Game::new(id("g"), 3);
    assert_eq!(g.players.len(), 3);
    assert_eq!(g.players[0].id, "player_0");
    assert_eq!(g.players[2].id, "player_2");
    assert_eq!(g.players[0].name, "Player 1");
    assert_eq!(g.players[2].name, "Player 3");
    assert_eq!(g.game_phase, GamePhase::Waiting);
    assert_eq!(g.current_player().unwrap().id, "player_0");
    assert_eq!(g.next_player_idx(), 1);
}

#[test]
fn start_game_checks_player_count() {
    let mut g = Game::new(id("g"), 2);
    let r = g.apply(Action::StartGame { player_count: 7 });
    assert_eq!(reason(&r), "플레이어 수는 2~6명이어야 합니다");
    let r = g.apply(Action::StartGame { player_count: 3 });
    assert_eq!(reason(&r), "player count does not match the table");
    assert_eq!(g.game_phase, GamePhase::Waiting);
    assert!(matches!(g.apply(Action::StartGame { player_count: 2 }), ActionResult::Success { .. }));
    let r = g.apply(Action::StartGame { player_count: 2 });
    assert_eq!(reason(&r), "action not allowed in this phase");
}

#[test]
fn dealing_the_catalog_keeps_every_card_once() {
    let mut g = Game::new(id("g"), 2);
    g.apply(Action::StartGame { player_count: 2 });
    assert!(g.deal(Card::all(), 10, 8).is_ok());
    assert_eq!(g.game_phase, GamePhase::Playing);
    assert_eq!(g.turn_phase, TurnPhase::PlayingCard);
    assert_eq!(g.current_player_idx, 0);
    assert_eq!(g.players[0].hand.len(), 10);
    assert_eq!(g.players[1].hand.len(), 10);
    assert_eq!(g.field.len(), 8);
    assert_eq!(g.deck.len(), 22);
    assert!(holds_catalog(&g));
}

#[test]
fn dealing_needs_enough_cards_and_the_right_phase() {
    let mut g = Game::new(id("g"), 2);
    assert_eq!(g.deal(Card::all(), 10, 8), Err(id("action not allowed in this phase")));
    g.apply(Action::StartGame { player_count: 2 });
    assert_eq!(g.deal(Card::all(), 20, 11), Err(id("not enough cards to deal")));
    assert_eq!(g.game_phase, GamePhase::Starting);
}

#[test]
fn end_to_end_ddadak() {
    let mut g = started_game();
    assert_eq!(g.game_phase, GamePhase::Playing);
    assert_eq!(g.current_player_idx, 0);
    assert_eq!(g.players[0].hand, vec![Card::SonghakPine]);
    assert_eq!(g.players[1].hand, vec![Card::MaejouPlum]);

    let r = g.apply(Action::PlayCard { player_id: id("player_1"), card: Card::MaejouPlum });
    assert_eq!(reason(&r), "not current player's turn");

    let r = g.apply(Action::PlayCard { player_id: id("player_0"), card: Card::SonghakPine });
    match r {
        ActionResult::Success { next_action, state_change } => {
            match state_change {
                StateChange::CardsMoved { from, to, cards } => {
                    assert_eq!(from, Location::PlayerHand(id("player_0")));
                    assert_eq!(to, Location::PlayerCapture(id("player_0")));
                    assert_eq!(cards.len(), 3);
                }
                _ => panic!("expected cards to move"),
            }
            assert_eq!(
                next_action,
                Some(Action::TransferPi {
                    from_player_id: id("player_1"),
                    to_player_id: id("player_0"),
                    count: 1
                })
            );
        }
        ActionResult::Invalid { reason } => panic!("{}", reason),
    }
    assert_eq!(g.special_conditions.len(), 1);
    assert_eq!(g.special_conditions[0].condition_type, SpecialConditionType::Ddadak);
    assert!(g.field.is_empty());
    assert_eq!(g.players[0].captured.total_count(), 3);
    assert_eq!(g.players[0].captured.gwang, vec![Card::SonghakCrane]);
    assert_eq!(g.turn_phase, TurnPhase::DrawingCard);

    // player 1 has no pi yet: nothing moves, but the action is accepted
    let r = g.apply(Action::TransferPi {
        from_player_id: id("player_1"),
        to_player_id: id("player_0"),
        count: 1,
    });
    assert!(matches!(r, ActionResult::Success { .. }));

    let r = g.apply(Action::PlayCard { player_id: id("player_0"), card: Card::SonghakPine });
    assert_eq!(reason(&r), "action not allowed in this phase");

    let r = g.apply(Action::DrawFromDeck { player_id: id("player_0") });
    assert!(matches!(r, ActionResult::Success { next_action: None, .. }));
    assert_eq!(g.field, vec![Card::SakuraCherry]);
    assert_eq!(g.turn_phase, TurnPhase::TakingCards);

    let r = g.apply(Action::TakeMatchedCards { player_id: id("player_0"), cards: vec![] });
    match r {
        ActionResult::Success { state_change: StateChange::TurnChanged { new_player_id }, .. } => {
            assert_eq!(new_player_id, "player_1");
        }
        _ => panic!("expected the turn to pass"),
    }
    assert_eq!(g.current_player_idx, 1);
    assert_eq!(g.turn_phase, TurnPhase::PlayingCard);
    assert_eq!(all_cards(&g).len(), 5);
}

#[test]
fn play_without_match_then_jjok() {
    let mut g = Game::new(id("g"), 2);
    g.apply(Action::StartGame { player_count: 2 });
    // deck top: SonghakPine2; player 0 holds SonghakPine; field holds a March card
    let cards = vec![Card::SonghakPine2, Card::SakuraCherry, Card::MaejouPlum, Card::SonghakPine];
    assert!(g.deal(cards, 1, 1).is_ok());
    let r = g.apply(Action::PlayCard { player_id: id("player_0"), card: Card::SonghakPine });
    assert!(matches!(r, ActionResult::Success { next_action: None, .. }));
    assert_eq!(g.field.len(), 2);
    let r = g.apply(Action::DrawFromDeck { player_id: id("player_0") });
    match r {
        ActionResult::Success { next_action: Some(Action::TransferPi { count, .. }), .. } => {
            assert_eq!(count, 1)
        }
        _ => panic!("expected a pi transfer"),
    }
    assert_eq!(g.special_conditions[0].condition_type, SpecialConditionType::Jjok);
    assert_eq!(g.field, vec![Card::SakuraCherry]);
}

#[test]
fn card_not_in_hand_is_rejected() {
    let mut g = started_game();
    let r = g.apply(Action::PlayCard { player_id: id("player_0"), card: Card::Iris });
    assert_eq!(reason(&r), "card not in hand");
    assert_eq!(g.players[0].hand.len(), 1);
}

#[test]
fn go_then_stop() {
    let mut g = Game::new(id("g"), 2);
    g.apply(Action::StartGame { player_count: 2 });
    assert!(g.deal(Card::all(), 10, 8).is_ok());
    for c in [Card::SonghakHongdan, Card::MaejouHongdan, Card::SakuraHongdan] {
        let k = g.players[1].hand.iter().position(|d| *d == c);
        if let Some(k) = k {
            g.players[1].hand.remove(k);
        } else if let Some(k) = g.deck.iter().position(|d| *d == c) {
            g.deck.remove(k);
        } else if let Some(k) = g.field.iter().position(|d| *d == c) {
            g.field.remove(k);
        } else {
            let k = g.players[0].hand.iter().position(|d| *d == c).unwrap();
            g.players[0].hand.remove(k);
        }
        g.players[0].captured.add_card(c);
    }
    assert!(holds_catalog(&g));
    g.turn_phase = TurnPhase::TakingCards;
    let r = g.apply(Action::TakeMatchedCards { player_id: id("player_0"), cards: vec![] });
    assert!(matches!(
        r,
        ActionResult::Success { state_change: StateChange::ScoreUpdated { new_score: 3, .. }, .. }
    ));
    assert_eq!(g.turn_phase, TurnPhase::DecidingGoStop);
    let r = g.apply(Action::DeclareGo { player_id: id("player_0") });
    assert!(matches!(r, ActionResult::Success { .. }));
    assert_eq!(g.players[0].score.go_count, 1);
    assert_eq!(g.go_history.len(), 1);
    assert_eq!(g.go_history[0].score_at_go, 3);
    assert_eq!(g.current_player_idx, 1);

    g.current_player_idx = 0;
    g.turn_phase = TurnPhase::DecidingGoStop;
    g.nagari_count = 1;
    let r = g.apply(Action::DeclareStop { player_id: id("player_0") });
    assert!(matches!(
        r,
        ActionResult::Success { state_change: StateChange::ScoreUpdated { new_score: 6, .. }, .. }
    ));
    assert_eq!(g.game_phase, GamePhase::Scoring);
    assert_eq!(g.nagari_count, 0);
    assert!(holds_catalog(&g));

    let r = g.apply(Action::EndGame { winner_id: id("player_0"), final_scores: vec![] });
    match r {
        ActionResult::Success { state_change: StateChange::GameEnded { winner_id }, .. } => {
            assert_eq!(winner_id, "player_0")
        }
        _ => panic!("expected the game to end"),
    }
    assert_eq!(g.game_phase, GamePhase::Ended);
    let r = g.apply(Action::DrawFromDeck { player_id: id("player_0") });
    assert_eq!(reason(&r), "game has ended");
}

#[test]
fn shaking_records_a_multiplier() {
    let mut g = Game::new(id("g"), 2);
    g.apply(Action::StartGame { player_count: 2 });
    let cards = vec![
        Card::Maple,
        Card::Iris,
        Card::MaejouPlum,
        Card::SonghakCrane,
        Card::SonghakPine2,
        Card::SonghakPine,
    ];
    assert!(g.deal(cards, 3, 0).is_ok());
    assert_eq!(g.players[0].hand.len(), 3);
    let hand = g.players[0].hand.clone();
    let r = g.apply(Action::DeclareShaking { player_id: id("player_0"), cards: hand.clone() });
    assert!(matches!(r, ActionResult::Success { .. }));
    assert_eq!(g.players[0].shaking_cards, hand);
    assert_eq!(g.players[0].score.multipliers.len(), 1);
    assert_eq!(g.special_conditions[0].condition_type, SpecialConditionType::Shaking);
    let r = g.apply(Action::DeclareShaking {
        player_id: id("player_0"),
        cards: vec![Card::SonghakPine, Card::SonghakPine, Card::SonghakCrane],
    });
    assert!(matches!(r, ActionResult::Invalid { .. }));
}

#[test]
fn exhausted_deck_goes_to_scoring() {
    let mut g = Game::new(id("g"), 2);
    g.apply(Action::StartGame { player_count: 2 });
    assert!(g.deal(vec![Card::MaejouPlum, Card::SonghakPine], 1, 0).is_ok());
    g.apply(Action::PlayCard { player_id: id("player_0"), card: Card::SonghakPine });
    let r = g.apply(Action::DrawFromDeck { player_id: id("player_0") });
    assert!(matches!(r, ActionResult::Success { .. }));
    assert_eq!(g.game_phase, GamePhase::Scoring);
}

#[test]
fn end_turn_passes_the_turn() {
    let mut g = started_game();
    let r = g.apply(Action::EndTurn { player_id: id("player_1") });
    assert_eq!(reason(&r), "not current player's turn");
    let r = g.apply(Action::EndTurn { player_id: id("player_0") });
    assert!(matches!(r, ActionResult::Success { .. }));
    assert_eq!(g.current_player_idx, 1);
}

#[test]
fn nagari_gathers_the_cards_and_deals_again() {
    let mut g = Game::new(id("g"), 2);
    g.apply(Action::StartGame { player_count: 2 });
    assert!(g.deal(vec![Card::MaejouPlum, Card::SonghakPine], 1, 0).is_ok());
    let r = g.apply(Action::HandleNagari);
    assert_eq!(reason(&r), "action not allowed in this phase");
    g.apply(Action::PlayCard { player_id: id("player_0"), card: Card::SonghakPine });
    g.apply(Action::DrawFromDeck { player_id: id("player_0") });
    assert_eq!(g.game_phase, GamePhase::Scoring);
    let r = g.apply(Action::HandleNagari);
    assert!(matches!(r, ActionResult::Success { .. }));
    assert_eq!(g.game_phase, GamePhase::Dealing);
    assert_eq!(g.nagari_count, 1);
    assert!(g.field.is_empty());
    assert!(g.players.iter().all(|p| p.hand.is_empty()));
    assert_eq!(g.deck.len(), 2);
    assert!(g.deal(Vec::new(), 1, 0).is_ok());
    assert_eq!(g.game_phase, GamePhase::Playing);
    assert_eq!(all_cards(&g).len(), 2);
}

#[test]
fn chongtong_is_recorded_at_the_deal() {
    let mut g = Game::new(id("g"), 2);
    g.apply(Action::StartGame { player_count: 2 });
    let cards = vec![
        Card::Maple,
        Card::Iris,
        Card::MaejouPlum,
        Card::Peony,
        Card::SonghakHongdan,
        Card::SonghakCrane,
        Card::SonghakPine2,
        Card::SonghakPine,
    ];
    assert!(g.deal(cards, 4, 0).is_ok());
    assert_eq!(g.special_conditions.len(), 1);
    assert_eq!(g.special_conditions[0].condition_type, SpecialConditionType::Chongtong);
    assert_eq!(g.special_conditions[0].player_id, "player_0");
    assert_eq!(g.special_conditions[0].cards.len(), 4);
}

#[test]
fn two_bare_cards_make_a_ppuk() {
    let mut g = Game::new(id("g"), 2);
    g.apply(Action::StartGame { player_count: 2 });
    // deck top: Iris; player 0 holds SonghakPine; the field holds a March card
    let cards = vec![Card::Iris, Card::SakuraCherry, Card::MaejouPlum, Card::SonghakPine];
    assert!(g.deal(cards, 1, 1).is_ok());
    g.apply(Action::PlayCard { player_id: id("player_0"), card: Card::SonghakPine });
    let r = g.apply(Action::DrawFromDeck { player_id: id("player_0") });
    assert!(matches!(r, ActionResult::Success { next_action: None, .. }));
    assert_eq!(g.special_conditions.len(), 1);
    assert_eq!(g.special_conditions[0].condition_type, SpecialConditionType::Ppuk);
    assert_eq!(g.special_conditions[0].cards, vec![Card::SonghakPine, Card::Iris]);
    assert_eq!(g.players[0].ppuk_count, 1);
    assert_eq!(g.field.len(), 3);
}

#[test]
fn ssaki_is_logged_with_the_month_cards() {
    let mut g = started_game();
    let r = g.apply(Action::PerformSsaki { player_id: id("player_1"), month: 13 });
    assert_eq!(reason(&r), "action not allowed in this phase");
    let r = g.apply(Action::PerformSsaki { player_id: id("nobody"), month: 1 });
    assert_eq!(reason(&r), "unknown player");
    let r = g.apply(Action::PerformSsaki { player_id: id("player_1"), month: 1 });
    assert!(matches!(r, ActionResult::Success { .. }));
    assert_eq!(g.special_conditions[0].condition_type, SpecialConditionType::Ssaki);
    assert_eq!(g.special_conditions[0].player_id, "player_1");
    assert_eq!(g.special_conditions[0].cards, vec![Card::SonghakCrane, Card::SonghakPine2]);
}

#[test]
fn follow_up_records_are_not_actions_of_the_engine() {
    let mut g = started_game();
    let r = g.apply(Action::HandlePpuk { player_id: id("player_0"), card: Card::SonghakPine });
    assert_eq!(reason(&r), "action is not handled by the engine");
}
