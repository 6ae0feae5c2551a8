use engine::cards::{Bucket, Card, CardCategory};

#[test]
fn test_is_bright() {
    assert!(Card::SonghakCrane.is_bright());
}

#[test]
fn test_is_not_bright() {
    assert!(!Card::SonghakPine.is_bright());
}

#[test]
fn catalog_has_fifty_distinct_cards() {
    let all = Card::all();
    assert_eq!(all.len(), 50);
    for i in 0..all.len() {
        for j in 0..i {
            assert_ne!(all[i], all[j]);
        }
    }
    assert_eq!(all.iter().filter(|c| c.is_bright()).count(), 5);
    assert_eq!(all.iter().filter(|c| c.is_bonus()).count(), 2);
    assert_eq!(all.iter().filter(|c| c.is_double_pi()).count(), 4);
}

#[test]
fn every_month_has_four_cards() {
    let all = Card::all();
    for m in 1u8..=12 {
        assert_eq!(all.iter().filter(|c| c.month() == Some(m)).count(), 4);
    }
    assert_eq!(all.iter().filter(|c| c.month().is_none()).count(), 2);
}

#[test]
fn categories_and_buckets() {
    assert_eq!(Card::SonghakCrane.category(), CardCategory::Bright);
    assert_eq!(Card::SonghakHongdan.category(), CardCategory::RibbonHongdan);
    assert_eq!(Card::PeonyCheongdan.category(), CardCategory::RibbonCheongdan);
    assert_eq!(Card::IrisChodan.category(), CardCategory::RibbonChodan);
    assert_eq!(Card::WillowChodan.category(), CardCategory::RibbonPlain);
    assert_eq!(Card::EoksaeGoose.category(), CardCategory::AnimalSpecial);
    assert_eq!(Card::MapleDeer.category(), CardCategory::AnimalPlain);
    assert_eq!(Card::PaulowniaDoublePi.category(), CardCategory::DoublePi);
    assert_eq!(Card::Bonus1.category(), CardCategory::Plain);
    assert_eq!(Card::Maple.category(), CardCategory::Pi);
    assert_eq!(Card::WillowRainman.bucket(), Bucket::Gwang);
    assert_eq!(Card::MaejouHongdan.bucket(), Bucket::Yeol);
    assert_eq!(Card::SariBoar.bucket(), Bucket::Meong);
    assert_eq!(Card::Bonus2.bucket(), Bucket::Pi);
}

#[test]
fn months_and_matching() {
    assert_eq!(Card::SonghakPine.month(), Some(1));
    assert_eq!(Card::WillowRainman.month(), Some(12));
    assert_eq!(Card::Bonus1.month(), None);
    assert!(Card::SonghakPine.matches_month(&Card::SonghakCrane));
    assert!(!Card::SonghakPine.matches_month(&Card::MaejouPlum));
    assert!(!Card::Bonus1.matches_month(&Card::Bonus2));
}
