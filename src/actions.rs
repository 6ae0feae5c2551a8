use vstd::prelude::*;
use vstd::string::*;

use crate::cards::Card;
use crate::scoring::PlayerScore;

verus! {

/// Every action a player (or the engine itself) can request.
#[derive(Debug, Clone, PartialEq)]
pub enum Action {
    StartGame { player_count: u8 },
    PlayCard { player_id: String, card: Card },
    DrawFromDeck { player_id: String },
    TakeMatchedCards { player_id: String, cards: Vec<Card> },
    /// Three or four cards of one month held in hand.
    DeclareShaking { player_id: String, cards: Vec<Card> },
    DeclareGo { player_id: String },
    DeclareStop { player_id: String },
    HandleNagari,
    /// Month in 1..=12.
    PerformSsaki { player_id: String, month: u8 },
    HandlePpuk { player_id: String, card: Card },
    HandleDdadak { player_id: String, matched_cards: Vec<Card> },
    HandleJjok { player_id: String, card: Card },
    HandleSseul { player_id: String, swept_cards: Vec<Card> },
    TransferPi { from_player_id: String, to_player_id: String, count: u8 },
    SellGwang { player_id: String, gwang_cards: Vec<Card> },
    EndTurn { player_id: String },
    EndGame { winner_id: String, final_scores: Vec<PlayerScore> },
}

/// The structural precondition of an action, independent of any game state.
pub open spec fn structurally_valid(a: Action) -> bool {
    match a {
        Action::StartGame { player_count } => 2 <= player_count <= 6,
        Action::DeclareShaking { cards, .. } => cards@.len() == 3 || cards@.len() == 4,
        _ => true,
    }
}

pub open spec fn invalid_player_count_msg() -> Seq<char> {
    "플레이어 수는 2~6명이어야 합니다"@
}

pub open spec fn invalid_shake_size_msg() -> Seq<char> {
    "흔들기는 3장 또는 4장이어야 합니다"@
}

/// Which handler runs first when one play triggers several (lower first).
pub open spec fn priority_of(a: Action) -> u8 {
    match a {
        Action::HandlePpuk { .. } => 1,
        Action::HandleDdadak { .. } => 2,
        Action::HandleSseul { .. } => 3,
        Action::DeclareShaking { .. } => 4,
        _ => 10,
    }
}

impl Action {
    /// Checks the structural preconditions of this action.
    pub fn validate(&self) -> (r: Result<(), String>)
        ensures
            r is Ok <==> structurally_valid(*self),
            r matches Err(e) ==> e@ == (if self is StartGame {
                invalid_player_count_msg()
            } else {
                invalid_shake_size_msg()
            }),
    {
        match self {
            Action::StartGame { player_count } => {
                if *player_count < 2 || *player_count > 6 {
                    return Err(String::from_str("플레이어 수는 2~6명이어야 합니다"));
                }
                Ok(())
            },
            Action::DeclareShaking { cards, .. } => {
                if cards.len() != 3 && cards.len() != 4 {
                    return Err(String::from_str("흔들기는 3장 또는 4장이어야 합니다"));
                }
                Ok(())
            },
            _ => Ok(()),
        }
    }

    /// The order in which simultaneous special-condition handlers run.
    pub fn priority(&self) -> (r: u8)
        ensures
            r == priority_of(*self),
    {
        match self {
            Action::HandlePpuk { .. } => 1,
            Action::HandleDdadak { .. } => 2,
            Action::HandleSseul { .. } => 3,
            Action::DeclareShaking { .. } => 4,
            _ => 10,
        }
    }
}

} // verus!
