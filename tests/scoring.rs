use engine::actions::Action;
use engine::cards::Card;
use engine::models::{decimal_string, CapturedCards, Player, ScoreMultiplier};

fn player() -> Player {
    Player::new(String::from("p"), String::from("P"))
}

fn with_multipliers(ms: &[ScoreMultiplier]) -> Player {
    let mut p = player();
    for m in ms {
        p.score.multipliers.push(*m);
    }
    p
}

#[test]
fn multiplier_examples() {
    assert_eq!(with_multipliers(&[ScoreMultiplier::Go(3)]).calculate_total_multiplier(), 2);
    assert_eq!(with_multipliers(&[ScoreMultiplier::Go(4)]).calculate_total_multiplier(), 4);
    assert_eq!(with_multipliers(&[ScoreMultiplier::Nagari(2)]).calculate_total_multiplier(), 4);
    assert_eq!(
        with_multipliers(&[ScoreMultiplier::Shaking(3), ScoreMultiplier::PiBak])
            .calculate_total_multiplier(),
        4
    );
    assert_eq!(with_multipliers(&[ScoreMultiplier::Shaking(4)]).calculate_total_multiplier(), 4);
}

#[test]
fn multiplier_edge_cases() {
    assert_eq!(with_multipliers(&[]).calculate_total_multiplier(), 1);
    assert_eq!(with_multipliers(&[ScoreMultiplier::Go(2)]).calculate_total_multiplier(), 1);
    assert_eq!(with_multipliers(&[ScoreMultiplier::Shaking(5)]).calculate_total_multiplier(), 1);
    assert_eq!(
        with_multipliers(&[
            ScoreMultiplier::GwangBak,
            ScoreMultiplier::MeongBak,
            ScoreMultiplier::Ssaki,
            ScoreMultiplier::OneShot
        ])
        .calculate_total_multiplier(),
        16
    );
    assert_eq!(with_multipliers(&[ScoreMultiplier::Nagari(31)]).calculate_total_multiplier(), 1 << 31);
    assert_eq!(with_multipliers(&[ScoreMultiplier::Nagari(32)]).checked_total_multiplier(), None);
    assert_eq!(
        with_multipliers(&[ScoreMultiplier::Go(20), ScoreMultiplier::Go(20)]).checked_total_multiplier(),
        None
    );
}

fn with_gwang(cards: &[Card]) -> Player {
    let mut p = player();
    for c in cards {
        p.captured.add_card(*c);
    }
    p
}

#[test]
fn gwang_scoring() {
    let five = [
        Card::SonghakCrane,
        Card::SakuraCurtain,
        Card::EoksaeMoon,
        Card::PaulowniaPhoenix,
        Card::WillowRainman,
    ];
    assert_eq!(with_gwang(&five).calculate_base_score(), 15);
    assert_eq!(with_gwang(&five[..4]).calculate_base_score(), 4);
    assert_eq!(with_gwang(&five[1..]).calculate_base_score(), 4);
    assert_eq!(with_gwang(&five[..3]).calculate_base_score(), 3);
    assert_eq!(with_gwang(&five[2..]).calculate_base_score(), 3);
    assert_eq!(with_gwang(&five[..2]).calculate_base_score(), 0);
    assert_eq!(with_gwang(&[]).calculate_base_score(), 0);
}

#[test]
fn pi_counting() {
    let mut p = player();
    p.captured.add_card(Card::PaulowniaDoublePi);
    p.captured.add_card(Card::SonghakPine);
    p.captured.add_card(Card::MaejouPlum);
    p.captured.add_card(Card::SakuraCherry);
    assert_eq!(p.calculate_pi_count(), 5);
    assert_eq!(p.calculate_base_score(), 0);

    let mut q = player();
    let plain = [
        Card::SonghakPine,
        Card::SonghakPine2,
        Card::MaejouPlum,
        Card::MaejouPlum2,
        Card::SakuraCherry,
        Card::SakuraCherry2,
        Card::DeungnamuWisteria,
        Card::DeungnamuWisteria2,
        Card::Iris,
        Card::Iris2,
    ];
    for c in plain {
        q.captured.add_card(c);
    }
    assert_eq!(q.calculate_pi_count(), 10);
    assert_eq!(q.calculate_base_score(), 1);
}

#[test]
fn hongdan_bonus() {
    let mut p = player();
    p.captured.add_card(Card::SonghakHongdan);
    p.captured.add_card(Card::MaejouHongdan);
    assert!(!p.has_hongdan());
    assert_eq!(p.calculate_base_score(), 0);
    p.captured.add_card(Card::SakuraHongdan);
    assert!(p.has_hongdan());
    assert_eq!(p.calculate_special_combinations(), 3);
    assert_eq!(p.calculate_base_score(), 3);
    assert!(p.has_go_stop_decision());
}

#[test]
fn other_combinations() {
    let mut p = player();
    for c in [Card::PeonyCheongdan, Card::ChrysanthemumCheongdan, Card::MapleCheongdan] {
        p.captured.add_card(c);
    }
    assert!(p.has_cheongdan());
    assert!(!p.has_chodan());
    for c in [Card::DeungnamuChodan, Card::IrisChodan, Card::SariChodan] {
        p.captured.add_card(c);
    }
    assert!(p.has_chodan());
    for c in [Card::MaejouWhistlingBird, Card::DeungnamuCuckoo, Card::EoksaeGoose] {
        p.captured.add_card(c);
    }
    assert!(p.has_godori());
    // 3 + 3 + 5 for the combinations, and 6 ribbons score 2 on their own
    assert_eq!(p.calculate_special_combinations(), 11);
    assert_eq!(p.calculate_base_score(), 13);
}

#[test]
fn ribbon_and_animal_counts() {
    let mut p = player();
    for c in [
        Card::WillowChodan,
        Card::SonghakHongdan,
        Card::MaejouHongdan,
        Card::PeonyCheongdan,
        Card::IrisChodan,
        Card::MapleDeer,
        Card::SariBoar,
        Card::PeonyButterfly,
        Card::IrisYatsuhashi,
        Card::WillowSwallow,
        Card::ChrysanthemumSakazuki,
    ] {
        p.captured.add_card(c);
    }
    assert_eq!(p.captured.yeol.len(), 5);
    assert_eq!(p.captured.meong.len(), 6);
    assert_eq!(p.calculate_base_score(), 1 + 2);
}

#[test]
fn add_card_routes_by_category() {
    let mut c = CapturedCards::new();
    c.add_card(Card::SonghakCrane);
    c.add_card(Card::SonghakHongdan);
    c.add_card(Card::MapleDeer);
    c.add_card(Card::Maple);
    c.add_card(Card::Bonus1);
    assert_eq!(c.gwang, vec![Card::SonghakCrane]);
    assert_eq!(c.yeol, vec![Card::SonghakHongdan]);
    assert_eq!(c.meong, vec![Card::MapleDeer]);
    assert_eq!(c.pi, vec![Card::Maple, Card::Bonus1]);
    assert_eq!(c.total_count(), 5);
}

#[test]
fn update_final_score_is_idempotent() {
    let mut p = player();
    for c in [Card::SonghakHongdan, Card::MaejouHongdan, Card::SakuraHongdan] {
        p.captured.add_card(c);
    }
    p.score.multipliers.push(ScoreMultiplier::Go(3));
    p.score.multipliers.push(ScoreMultiplier::PiBak);
    p.update_final_score();
    assert_eq!(p.score.base_score, 3);
    assert_eq!(p.score.total_multiplier, 4);
    assert_eq!(p.score.final_score, 12);
    let first = p.score.final_score;
    p.update_final_score();
    assert_eq!(p.score.final_score, first);
}

#[test]
fn score_range_check() {
    assert!(player().score_in_range());
    assert!(!with_multipliers(&[ScoreMultiplier::Nagari(40)]).score_in_range());
}

#[test]
fn multiplier_info_text() {
    let mut p = player();
    assert_eq!(p.get_multiplier_info(), "배수 없음");
    p.score.multipliers.push(ScoreMultiplier::Go(3));
    p.score.multipliers.push(ScoreMultiplier::PiBak);
    p.score.multipliers.push(ScoreMultiplier::Shaking(4));
    p.score.multipliers.push(ScoreMultiplier::Nagari(12));
    p.update_final_score();
    assert_eq!(p.get_multiplier_info(), "3고, 피박, 흔들기(4장), 나가리×12 (총 ×65536배)");
}

#[test]
fn decimal_text() {
    assert_eq!(decimal_string(0), "0");
    assert_eq!(decimal_string(7), "7");
    assert_eq!(decimal_string(10), "10");
    assert_eq!(decimal_string(4294967295), "4294967295");
}

#[test]
fn validation() {
    assert!(Action::StartGame { player_count: 2 }.validate().is_ok());
    assert!(Action::StartGame { player_count: 6 }.validate().is_ok());
    assert_eq!(
        Action::StartGame { player_count: 1 }.validate(),
        Err(String::from("플레이어 수는 2~6명이어야 합니다"))
    );
    assert!(Action::StartGame { player_count: 7 }.validate().is_err());
    let shake = |n: usize| Action::DeclareShaking {
        player_id: String::from("p"),
        cards: vec![Card::SonghakPine; n],
    };
    assert!(shake(3).validate().is_ok());
    assert!(shake(4).validate().is_ok());
    assert_eq!(shake(2).validate(), Err(String::from("흔들기는 3장 또는 4장이어야 합니다")));
    assert!(shake(5).validate().is_err());
    assert!(Action::HandleNagari.validate().is_ok());
}

#[test]
fn priorities() {
    let id = || String::from("p");
    assert_eq!(Action::HandlePpuk { player_id: id(), card: Card::Iris }.priority(), 1);
    assert_eq!(Action::HandleDdadak { player_id: id(), matched_cards: vec![] }.priority(), 2);
    assert_eq!(Action::HandleSseul { player_id: id(), swept_cards: vec![] }.priority(), 3);
    assert_eq!(Action::DeclareShaking { player_id: id(), cards: vec![] }.priority(), 4);
    assert_eq!(Action::HandleNagari.priority(), 10);
    assert_eq!(Action::DeclareGo { player_id: id() }.priority(), 10);
}

#[test]
fn defaults_are_empty() {
    let c = CapturedCards::default();
    assert_eq!(c.total_count(), 0);
    let s = engine::models::Score::default();
    assert_eq!(s.base_score, 0);
    assert_eq!(s.total_multiplier, 0);
    assert_eq!(s.final_score, 0);
    assert!(s.multipliers.is_empty());
    let p = player();
    assert_eq!(p.score.total_multiplier, 0);
}
