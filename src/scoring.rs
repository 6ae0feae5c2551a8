use vstd::prelude::*;

verus! {

/// A player's score as reported at the end of a game.
#[derive(Debug, Clone, PartialEq)]
pub struct PlayerScore {
    pub player_id: String,
    pub base_score: u32,
    pub go_count: u8,
    pub multipliers: Vec<Multiplier>,
    pub final_score: u32,
}

/// A multiplier as reported at the end of a game.
#[derive(Debug, Clone, Copy, PartialEq, Eq, Structural)]
pub enum Multiplier {
    /// Go declared this many times (doubles from the third on).
    Go(u8),
    PiBak,
    GwangBak,
    MeongBak,
    GoBak,
    DokBak,
    /// Shaking with three or four cards.
    Shaking(u8),
    Ssaki,
    /// Consecutive no-winner rounds.
    Nagari(u8),
    OneShot,
}

} // verus!
