use vstd::prelude::*;

verus! {

/// One of the fifty card identities: four cards for each of the twelve months,
/// plus two bonus cards that belong to no month.
#[derive(Debug, Clone, Copy, PartialEq, Eq, Hash, Structural)]
pub enum Card {
    // January: pine
    SonghakPine,
    SonghakPine2,
    SonghakCrane,
    SonghakHongdan,

    // February: plum blossom
    MaejouPlum,
    MaejouPlum2,
    MaejouWhistlingBird,
    MaejouHongdan,

    // March: cherry blossom
    SakuraCherry,
    SakuraCherry2,
    SakuraCurtain,
    SakuraHongdan,

    // April: wisteria
    DeungnamuWisteria,
    DeungnamuWisteria2,
    DeungnamuCuckoo,
    DeungnamuChodan,

    // May: iris
    Iris,
    Iris2,
    IrisYatsuhashi,
    IrisChodan,

    // June: peony
    Peony,
    Peony2,
    PeonyButterfly,
    PeonyCheongdan,

    // July: bush clover
    SariBushClover,
    SariBushClover2,
    SariBoar,
    SariChodan,

    // August: pampas grass
    EoksaePampas,
    EoksaePampas2,
    EoksaeGoose,
    EoksaeMoon,

    // September: chrysanthemum
    Chrysanthemum,
    Chrysanthemum2,
    ChrysanthemumSakazuki,
    ChrysanthemumCheongdan,

    // October: maple
    Maple,
    Maple2,
    MapleDeer,
    MapleCheongdan,

    // November: paulownia
    Paulownia,
    Paulownia2,
    PaulowniaDoublePi,
    PaulowniaPhoenix,

    // December: willow
    WillowDoublePi,
    WillowChodan,
    WillowSwallow,
    WillowRainman,

    // Bonus cards
    Bonus1,
    Bonus2,
}

/// The game-semantic category of a card.
///
/// Ordinary pi cards are `Pi`; the two month cards that count twice are
/// `DoublePi`; the two bonus cards, which belong to no month, are `Plain`
/// (they too count twice toward the pi total).
#[derive(Debug, Clone, Copy, PartialEq, Eq, Hash, Structural)]
pub enum CardCategory {
    Bright,
    RibbonPlain,
    RibbonHongdan,
    RibbonCheongdan,
    RibbonChodan,
    AnimalPlain,
    AnimalSpecial,
    Plain,
    Pi,
    DoublePi,
}

/// The bucket of a player's captured cards that a card is placed in.
#[derive(Debug, Clone, Copy, PartialEq, Eq, Hash, Structural)]
pub enum Bucket {
    Gwang,
    Yeol,
    Meong,
    Pi,
}

/// The fixed catalog of all fifty cards, each once.
pub open spec fn catalog() -> Seq<Card> {
    seq![
        Card::SonghakPine, Card::SonghakPine2, Card::SonghakCrane, Card::SonghakHongdan,
        Card::MaejouPlum, Card::MaejouPlum2, Card::MaejouWhistlingBird, Card::MaejouHongdan,
        Card::SakuraCherry, Card::SakuraCherry2, Card::SakuraCurtain, Card::SakuraHongdan,
        Card::DeungnamuWisteria, Card::DeungnamuWisteria2, Card::DeungnamuCuckoo, Card::DeungnamuChodan,
        Card::Iris, Card::Iris2, Card::IrisYatsuhashi, Card::IrisChodan,
        Card::Peony, Card::Peony2, Card::PeonyButterfly, Card::PeonyCheongdan,
        Card::SariBushClover, Card::SariBushClover2, Card::SariBoar, Card::SariChodan,
        Card::EoksaePampas, Card::EoksaePampas2, Card::EoksaeGoose, Card::EoksaeMoon,
        Card::Chrysanthemum, Card::Chrysanthemum2, Card::ChrysanthemumSakazuki, Card::ChrysanthemumCheongdan,
        Card::Maple, Card::Maple2, Card::MapleDeer, Card::MapleCheongdan,
        Card::Paulownia, Card::Paulownia2, Card::PaulowniaDoublePi, Card::PaulowniaPhoenix,
        Card::WillowDoublePi, Card::WillowChodan, Card::WillowSwallow, Card::WillowRainman,
        Card::Bonus1, Card::Bonus2,
    ]
}

/// The month of a card, or `None` for a bonus card.
pub open spec fn month_of(c: Card) -> Option<u8> {
    match c {
        Card::SonghakPine | Card::SonghakPine2 | Card::SonghakCrane | Card::SonghakHongdan => Some(1u8),
        Card::MaejouPlum | Card::MaejouPlum2 | Card::MaejouWhistlingBird | Card::MaejouHongdan => Some(2u8),
        Card::SakuraCherry | Card::SakuraCherry2 | Card::SakuraCurtain | Card::SakuraHongdan => Some(3u8),
        Card::DeungnamuWisteria | Card::DeungnamuWisteria2 | Card::DeungnamuCuckoo | Card::DeungnamuChodan => Some(4u8),
        Card::Iris | Card::Iris2 | Card::IrisYatsuhashi | Card::IrisChodan => Some(5u8),
        Card::Peony | Card::Peony2 | Card::PeonyButterfly | Card::PeonyCheongdan => Some(6u8),
        Card::SariBushClover | Card::SariBushClover2 | Card::SariBoar | Card::SariChodan => Some(7u8),
        Card::EoksaePampas | Card::EoksaePampas2 | Card::EoksaeGoose | Card::EoksaeMoon => Some(8u8),
        Card::Chrysanthemum | Card::Chrysanthemum2 | Card::ChrysanthemumSakazuki | Card::ChrysanthemumCheongdan => Some(9u8),
        Card::Maple | Card::Maple2 | Card::MapleDeer | Card::MapleCheongdan => Some(10u8),
        Card::Paulownia | Card::Paulownia2 | Card::PaulowniaDoublePi | Card::PaulowniaPhoenix => Some(11u8),
        Card::WillowDoublePi | Card::WillowChodan | Card::WillowSwallow | Card::WillowRainman => Some(12u8),
        Card::Bonus1 | Card::Bonus2 => None,
    }
}

/// The category of a card.
pub open spec fn category_of(c: Card) -> CardCategory {
    match c {
        Card::SonghakCrane | Card::SakuraCurtain | Card::EoksaeMoon | Card::PaulowniaPhoenix | Card::WillowRainman => CardCategory::Bright,
        Card::WillowChodan => CardCategory::RibbonPlain,
        Card::SonghakHongdan | Card::MaejouHongdan | Card::SakuraHongdan => CardCategory::RibbonHongdan,
        Card::PeonyCheongdan | Card::ChrysanthemumCheongdan | Card::MapleCheongdan => CardCategory::RibbonCheongdan,
        Card::DeungnamuChodan | Card::IrisChodan | Card::SariChodan => CardCategory::RibbonChodan,
        Card::IrisYatsuhashi | Card::PeonyButterfly | Card::SariBoar | Card::ChrysanthemumSakazuki | Card::MapleDeer | Card::WillowSwallow => CardCategory::AnimalPlain,
        Card::MaejouWhistlingBird | Card::DeungnamuCuckoo | Card::EoksaeGoose => CardCategory::AnimalSpecial,
        Card::Bonus1 | Card::Bonus2 => CardCategory::Plain,
        Card::PaulowniaDoublePi | Card::WillowDoublePi => CardCategory::DoublePi,
        _ => CardCategory::Pi,
    }
}

/// The bucket that a card of the given category is captured into.
pub open spec fn bucket_of_category(k: CardCategory) -> Bucket {
    match k {
        CardCategory::Bright => Bucket::Gwang,
        CardCategory::RibbonPlain | CardCategory::RibbonHongdan | CardCategory::RibbonCheongdan
        | CardCategory::RibbonChodan => Bucket::Yeol,
        CardCategory::AnimalPlain | CardCategory::AnimalSpecial => Bucket::Meong,
        CardCategory::Plain | CardCategory::Pi | CardCategory::DoublePi => Bucket::Pi,
    }
}

pub open spec fn bucket_of(c: Card) -> Bucket {
    bucket_of_category(category_of(c))
}

pub open spec fn is_bonus_card(c: Card) -> bool {
    c is Bonus1 || c is Bonus2
}

/// Cards that count as two toward the pi total.
pub open spec fn is_double_pi_card(c: Card) -> bool {
    c is PaulowniaDoublePi || c is WillowDoublePi || c is Bonus1 || c is Bonus2
}

pub open spec fn is_bright_card(c: Card) -> bool {
    c is SonghakCrane || c is SakuraCurtain || c is EoksaeMoon || c is PaulowniaPhoenix
        || c is WillowRainman
}

/// Two cards match when both belong to the same month.
pub open spec fn same_month(a: Card, b: Card) -> bool {
    month_of(a) is Some && month_of(a) == month_of(b)
}

impl Card {
    pub fn is_bonus(&self) -> (r: bool)
        ensures
            r == is_bonus_card(*self),
    {
        matches!(self, Card::Bonus1 | Card::Bonus2)
    }

    pub fn is_double_pi(&self) -> (r: bool)
        ensures
            r == is_double_pi_card(*self),
    {
        matches!(self, Card::PaulowniaDoublePi | Card::WillowDoublePi | Card::Bonus1 | Card::Bonus2)
    }

    pub fn is_bright(&self) -> (r: bool)
        ensures
            r == is_bright_card(*self),
    {
        matches!(
            self,
            Card::SonghakCrane | Card::SakuraCurtain | Card::EoksaeMoon | Card::PaulowniaPhoenix
                | Card::WillowRainman
        )
    }


    pub fn month(&self) -> (r: Option<u8>)
        ensures
            r == month_of(*self),
    {
        match self {
            Card::SonghakPine | Card::SonghakPine2 | Card::SonghakCrane | Card::SonghakHongdan => Some(1),
            Card::MaejouPlum | Card::MaejouPlum2 | Card::MaejouWhistlingBird | Card::MaejouHongdan => Some(2),
            Card::SakuraCherry | Card::SakuraCherry2 | Card::SakuraCurtain | Card::SakuraHongdan => Some(3),
            Card::DeungnamuWisteria | Card::DeungnamuWisteria2 | Card::DeungnamuCuckoo | Card::DeungnamuChodan => Some(4),
            Card::Iris | Card::Iris2 | Card::IrisYatsuhashi | Card::IrisChodan => Some(5),
            Card::Peony | Card::Peony2 | Card::PeonyButterfly | Card::PeonyCheongdan => Some(6),
            Card::SariBushClover | Card::SariBushClover2 | Card::SariBoar | Card::SariChodan => Some(7),
            Card::EoksaePampas | Card::EoksaePampas2 | Card::EoksaeGoose | Card::EoksaeMoon => Some(8),
            Card::Chrysanthemum | Card::Chrysanthemum2 | Card::ChrysanthemumSakazuki | Card::ChrysanthemumCheongdan => Some(9),
            Card::Maple | Card::Maple2 | Card::MapleDeer | Card::MapleCheongdan => Some(10),
            Card::Paulownia | Card::Paulownia2 | Card::PaulowniaDoublePi | Card::PaulowniaPhoenix => Some(11),
            Card::WillowDoublePi | Card::WillowChodan | Card::WillowSwallow | Card::WillowRainman => Some(12),
            Card::Bonus1 | Card::Bonus2 => None,
        }
    }

    pub fn category(&self) -> (r: CardCategory)
        ensures
            r == category_of(*self),
    {
        match self {
            Card::SonghakCrane | Card::SakuraCurtain | Card::EoksaeMoon | Card::PaulowniaPhoenix | Card::WillowRainman => CardCategory::Bright,
            Card::WillowChodan => CardCategory::RibbonPlain,
            Card::SonghakHongdan | Card::MaejouHongdan | Card::SakuraHongdan => CardCategory::RibbonHongdan,
            Card::PeonyCheongdan | Card::ChrysanthemumCheongdan | Card::MapleCheongdan => CardCategory::RibbonCheongdan,
            Card::DeungnamuChodan | Card::IrisChodan | Card::SariChodan => CardCategory::RibbonChodan,
            Card::IrisYatsuhashi | Card::PeonyButterfly | Card::SariBoar | Card::ChrysanthemumSakazuki | Card::MapleDeer | Card::WillowSwallow => CardCategory::AnimalPlain,
            Card::MaejouWhistlingBird | Card::DeungnamuCuckoo | Card::EoksaeGoose => CardCategory::AnimalSpecial,
            Card::Bonus1 | Card::Bonus2 => CardCategory::Plain,
            Card::PaulowniaDoublePi | Card::WillowDoublePi => CardCategory::DoublePi,
            _ => CardCategory::Pi,
        }
    }

    /// The captured-card bucket this card belongs in.
    pub fn bucket(&self) -> (r: Bucket)
        ensures
            r == bucket_of(*self),
    {
        match self.category() {
            CardCategory::Bright => Bucket::Gwang,
            CardCategory::RibbonPlain | CardCategory::RibbonHongdan | CardCategory::RibbonCheongdan
            | CardCategory::RibbonChodan => Bucket::Yeol,
            CardCategory::AnimalPlain | CardCategory::AnimalSpecial => Bucket::Meong,
            CardCategory::Plain | CardCategory::Pi | CardCategory::DoublePi => Bucket::Pi,
        }
    }

    /// Whether two cards belong to the same month (bonus cards match nothing).
    pub fn matches_month(&self, other: &Card) -> (r: bool)
        ensures
            r == same_month(*self, *other),
    {
        match (self.month(), other.month()) {
            (Some(a), Some(b)) => a == b,
            _ => false,
        }
    }


    /// All fifty cards, each once, in catalog order.
    pub fn all() -> (r: Vec<Card>)
        ensures
            r@ == catalog(),
    {
        let r = vec![
            Card::SonghakPine, Card::SonghakPine2, Card::SonghakCrane, Card::SonghakHongdan,
            Card::MaejouPlum, Card::MaejouPlum2, Card::MaejouWhistlingBird, Card::MaejouHongdan,
            Card::SakuraCherry, Card::SakuraCherry2, Card::SakuraCurtain, Card::SakuraHongdan,
            Card::DeungnamuWisteria, Card::DeungnamuWisteria2, Card::DeungnamuCuckoo, Card::DeungnamuChodan,
            Card::Iris, Card::Iris2, Card::IrisYatsuhashi, Card::IrisChodan,
            Card::Peony, Card::Peony2, Card::PeonyButterfly, Card::PeonyCheongdan,
            Card::SariBushClover, Card::SariBushClover2, Card::SariBoar, Card::SariChodan,
            Card::EoksaePampas, Card::EoksaePampas2, Card::EoksaeGoose, Card::EoksaeMoon,
            Card::Chrysanthemum, Card::Chrysanthemum2, Card::ChrysanthemumSakazuki, Card::ChrysanthemumCheongdan,
            Card::Maple, Card::Maple2, Card::MapleDeer, Card::MapleCheongdan,
            Card::Paulownia, Card::Paulownia2, Card::PaulowniaDoublePi, Card::PaulowniaPhoenix,
            Card::WillowDoublePi, Card::WillowChodan, Card::WillowSwallow, Card::WillowRainman,
            Card::Bonus1, Card::Bonus2,
        ];
        assert(r@ =~= catalog());
        r
    }
}



} // verus!
