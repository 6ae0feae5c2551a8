use vstd::prelude::*;

pub mod actions;
pub mod cards;
pub mod game_state;
pub mod models;
pub mod rules;
pub mod scoring;

pub use game_state::{
    GamePhase, Location, SpecialCondition, SpecialConditionType, StateChange, TurnPhase,
};
pub use models::{CapturedCards, Game, GoHistory, Player, Score, ScoreMultiplier};
pub use scoring::{Multiplier, PlayerScore};

verus! {

/// The outcome of applying an action to a game.
#[derive(Debug, Clone)]
pub enum ActionResult {
    Success { next_action: Option<actions::Action>, state_change: StateChange },
    Invalid { reason: String },
}

} // verus!
