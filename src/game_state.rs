use vstd::prelude::*;

use crate::cards::Card;

verus! {

/// The phase of a whole game.
#[derive(Debug, Clone, Copy, PartialEq, Eq, Structural)]
pub enum GamePhase {
    Waiting,
    Starting,
    Dealing,
    Playing,
    Scoring,
    Ended,
}

/// The phase of the current player's turn, meaningful while the game is `Playing`.
#[derive(Debug, Clone, Copy, PartialEq, Eq, Structural)]
pub enum TurnPhase {
    PlayingCard,
    DrawingCard,
    TakingCards,
    DecidingGoStop,
}

/// Where a card lies.
#[derive(Debug, Clone, PartialEq)]
pub enum Location {
    PlayerHand(String),
    Field,
    Deck,
    PlayerCapture(String),
}

/// A special event detected while resolving a play or a draw.
#[derive(Debug, Clone)]
pub struct SpecialCondition {
    pub condition_type: SpecialConditionType,
    pub player_id: String,
    pub cards: Vec<Card>,
}

#[derive(Debug, Clone, Copy, PartialEq, Eq, Structural)]
pub enum SpecialConditionType {
    Ppuk,
    JaPpuk,
    ThreePpuk,
    Ddadak,
    Jjok,
    Sseul,
    Ssaki,
    Chongtong,
    Shaking,
}

/// The observable effect of an applied action.
#[derive(Debug, Clone)]
pub enum StateChange {
    CardsMoved { from: Location, to: Location, cards: Vec<Card> },
    ScoreUpdated { player_id: String, new_score: u32 },
    TurnChanged { new_player_id: String },
    GameEnded { winner_id: String },
}

} // verus!
