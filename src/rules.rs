use vstd::multiset::Multiset;
use vstd::prelude::*;
use vstd::string::*;

use crate::actions::Action;
use crate::cards::{catalog, is_bonus_card, month_of, same_month, Card};
use crate::game_state::{
    GamePhase, Location, SpecialCondition, SpecialConditionType, StateChange, TurnPhase,
};
use crate::models::{
    base_score, refreshed, score_fits, scores_fit, Game, GoHistory, Player, ScoreMultiplier, GO_STOP_THRESHOLD,
};
use crate::ActionResult;

verus! {

// ---------------------------------------------------------------------------
// Where the cards are
// ---------------------------------------------------------------------------

/// The cards a player holds in hand or has captured.
pub open spec fn player_cards(p: Player) -> Multiset<Card> {
    p.hand@.to_multiset().add(p.captured.cards())
}

/// The cards held or captured by all of `ps`.
pub open spec fn players_cards(ps: Seq<Player>) -> Multiset<Card>
    decreases ps.len(),
{
    if ps.len() == 0 {
        Multiset::empty()
    } else {
        players_cards(ps.drop_last()).add(player_cards(ps.last()))
    }
}

/// The multiplier log of the current player once Stop is declared: the Go count and
/// any pending no-winner rounds are appended.
pub open spec fn stop_log(g: Game) -> Seq<ScoreMultiplier> {
    let p = g.players@[g.current_player_idx as int];
    let ms = p.score.multipliers@;
    let with_go = if p.score.go_count > 0 {
        ms.push(ScoreMultiplier::Go(p.score.go_count))
    } else {
        ms
    };
    if g.nagari_count > 0 {
        with_go.push(ScoreMultiplier::Nagari(g.nagari_count))
    } else {
        with_go
    }
}

/// `b` is `a` with possibly another hand.
pub open spec fn same_but_hand(a: Player, b: Player) -> bool {
    &&& b.id == a.id
    &&& b.name == a.name
    &&& b.captured == a.captured
    &&& b.score == a.score
    &&& b.shaking_cards == a.shaking_cards
    &&& b.ppuk_count == a.ppuk_count
    &&& b.is_first_turn == a.is_first_turn
}

/// Cards of the month of `card`.
pub open spec fn month_of_card(card: Card) -> spec_fn(Card) -> bool {
    |c: Card| same_month(c, card)
}

/// Cards not of the month of `card`.
pub open spec fn other_month(card: Card) -> spec_fn(Card) -> bool {
    |c: Card| !same_month(c, card)
}

impl Game {
    /// Every card of the game: deck, field, hands and captured buckets.
    pub open spec fn all_cards(self) -> Multiset<Card> {
        self.deck@.to_multiset().add(self.field@.to_multiset()).add(players_cards(self.players@))
    }

    /// The game holds the fifty-card catalog, each card exactly once.
    pub open spec fn holds_catalog(self) -> bool {
        self.all_cards() == catalog().to_multiset()
    }

    pub open spec fn wf(self) -> bool {
        &&& self.current_player_idx < self.players@.len()
        &&& (self.game_phase == GamePhase::Waiting || self.game_phase == GamePhase::Starting)
            ==> self.all_cards() == Multiset::<Card>::empty()
    }

    /// The id of the player whose turn it is.
    pub open spec fn current_id(self) -> Seq<char> {
        self.players@[self.current_player_idx as int].id@
    }
}

proof fn lemma_players_update(ps: Seq<Player>, i: int, p: Player)
    requires
        0 <= i < ps.len(),
    ensures
        players_cards(ps.update(i, p)).add(player_cards(ps[i])) == players_cards(ps).add(
            player_cards(p),
        ),
    decreases ps.len(),
{
    let u = ps.update(i, p);
    let hu = players_cards(u);
    let hp = players_cards(ps);
    assert(hp == players_cards(ps.drop_last()).add(player_cards(ps.last())));
    assert(hu == players_cards(u.drop_last()).add(player_cards(u.last())));
    if i == ps.len() - 1 {
        assert(u.drop_last() =~= ps.drop_last());
        assert(u.last() == p);
        assert(ps[i] == ps.last());
        let a = players_cards(ps.drop_last());
        assert(players_cards(u.drop_last()) == a);
        assert(hu == a.add(player_cards(p)));
        assert(hp == a.add(player_cards(ps[i])));
        lemma_add_swap(a, player_cards(p), player_cards(ps[i]));
    } else {
        let d = ps.drop_last();
        assert(u.drop_last() =~= d.update(i, p));
        assert(u.last() == ps.last());
        assert(d[i] == ps[i]);
        lemma_players_update(d, i, p);
        assert(players_cards(d.update(i, p)).add(player_cards(ps[i])) == players_cards(d).add(
            player_cards(p),
        ));
        let x = players_cards(d.update(i, p));
        let l = player_cards(ps.last());
        assert(players_cards(u.drop_last()) == x);
        lemma_add_swap(x, l, player_cards(ps[i]));
        lemma_add_swap(players_cards(d), l, player_cards(p));
    }
}

proof fn lemma_add_swap(a: Multiset<Card>, x: Multiset<Card>, y: Multiset<Card>)
    ensures
        a.add(x).add(y) == a.add(y).add(x),
{
    assert(a.add(x).add(y) =~= a.add(y).add(x));
}

/// Replacing a player who gained `plus` and lost `minus` changes the players' cards alike.
proof fn lemma_swap_player(
    ps: Seq<Player>,
    i: int,
    p: Player,
    plus: Multiset<Card>,
    minus: Multiset<Card>,
)
    requires
        0 <= i < ps.len(),
        player_cards(p).add(minus) == player_cards(ps[i]).add(plus),
    ensures
        players_cards(ps.update(i, p)).add(minus) == players_cards(ps).add(plus),
{
    lemma_players_update(ps, i, p);
    let a = players_cards(ps.update(i, p));
    let b = players_cards(ps);
    let q = player_cards(ps[i]);
    assert forall|c: Card| #[trigger] a.add(minus).count(c) == b.add(plus).count(c) by {
        assert(a.add(q).count(c) == b.add(player_cards(p)).count(c));
        assert(player_cards(p).add(minus).count(c) == q.add(plus).count(c));
    }
    assert(a.add(minus) =~= b.add(plus));
}

/// Pushing `c` onto a player's pi bucket adds `c` to the player's cards.
proof fn lemma_pi_push(p: Player, q: Player, c: Card)
    requires
        q.hand == p.hand,
        q.captured.gwang == p.captured.gwang,
        q.captured.yeol == p.captured.yeol,
        q.captured.meong == p.captured.meong,
        q.captured.pi@ == p.captured.pi@.push(c),
    ensures
        player_cards(q) == player_cards(p).insert(c),
{
    broadcast use vstd::seq_lib::group_to_multiset_ensures;

    assert(q.captured.pi@.to_multiset() == p.captured.pi@.to_multiset().insert(c));
    assert forall|x: Card| #[trigger] player_cards(q).count(x) == player_cards(p).insert(c).count(x) by {}
    assert(player_cards(q) =~= player_cards(p).insert(c));
}

// ---------------------------------------------------------------------------
// Helpers
// ---------------------------------------------------------------------------

/// The index of `c` in `v`, if it is there.
fn find_card(v: &Vec<Card>, c: Card) -> (r: Option<usize>)
    ensures
        match r {
            Some(k) => k < v@.len() && v@[k as int] == c,
            None => !v@.contains(c),
        },
{
    let mut i: usize = 0;
    while i < v.len()
        invariant
            i <= v@.len(),
            forall|k: int| 0 <= k < i ==> v@[k] != c,
        decreases v@.len() - i,
    {
        if v[i] == c {
            return Some(i);
        }
        i = i + 1;
    }
    None
}

/// Splits `field` into the cards of another month than `card` and those of its month.
fn split_by_month(field: &Vec<Card>, card: Card) -> (r: (Vec<Card>, Vec<Card>))
    ensures
        r.0@ == field@.filter(other_month(card)),
        r.1@ == field@.filter(month_of_card(card)),
        r.0@.to_multiset().add(r.1@.to_multiset()) == field@.to_multiset(),
{
    broadcast use vstd::seq_lib::group_to_multiset_ensures;

    let mut kept: Vec<Card> = Vec::new();
    let mut taken: Vec<Card> = Vec::new();
    let mut i: usize = 0;
    assert(field@.take(0) =~= Seq::<Card>::empty());
    reveal_with_fuel(Seq::filter, 1);
    while i < field.len()
        invariant
            i <= field@.len(),
            kept@ == field@.take(i as int).filter(other_month(card)),
            taken@ == field@.take(i as int).filter(month_of_card(card)),
            kept@.to_multiset().add(taken@.to_multiset()) == field@.take(i as int).to_multiset(),
        decreases field@.len() - i,
    {
        let c = field[i];
        assert(field@.take(i + 1).drop_last() =~= field@.take(i as int));
        reveal_with_fuel(Seq::filter, 1);
        assert(field@.take(i + 1) =~= field@.take(i as int).push(c));
        proof {
            field@.take(i as int).to_multiset_ensures();
            kept@.to_multiset_ensures();
            taken@.to_multiset_ensures();
        }
        if c.matches_month(&card) {
            taken.push(c);
        } else {
            kept.push(c);
        }
        assert(kept@.to_multiset().add(taken@.to_multiset()) =~= field@.take(i + 1).to_multiset());
        i = i + 1;
    }
    assert(field@.take(i as int) =~= field@);
    (kept, taken)
}

/// Moves every card of `cards` into the player's captured buckets.
fn capture_all(p: &mut Player, cards: &Vec<Card>)
    ensures
        player_cards(*final(p)) == player_cards(*old(p)).add(cards@.to_multiset()),
        final(p).captured.cards() == old(p).captured.cards().add(cards@.to_multiset()),
        final(p).hand == old(p).hand,
        final(p).id == old(p).id,
        final(p).name == old(p).name,
        final(p).score == old(p).score,
        final(p).shaking_cards == old(p).shaking_cards,
        final(p).ppuk_count == old(p).ppuk_count,
        final(p).is_first_turn == old(p).is_first_turn,
        old(p).captured.sorted() ==> final(p).captured.sorted(),
{
    broadcast use vstd::seq_lib::group_to_multiset_ensures;

    let mut i: usize = 0;
    assert(cards@.take(0) =~= Seq::<Card>::empty());
    while i < cards.len()
        invariant
            i <= cards@.len(),
            player_cards(*p) == player_cards(*old(p)).add(cards@.take(i as int).to_multiset()),
            p.captured.cards() == old(p).captured.cards().add(cards@.take(i as int).to_multiset()),
            p.hand == old(p).hand,
            p.id == old(p).id,
            p.name == old(p).name,
            p.score == old(p).score,
            p.shaking_cards == old(p).shaking_cards,
            p.ppuk_count == old(p).ppuk_count,
            p.is_first_turn == old(p).is_first_turn,
            old(p).captured.sorted() ==> p.captured.sorted(),
        decreases cards@.len() - i,
    {
        let c = cards[i];
        let ghost before = *p;
        p.captured.add_card(c);
        assert(player_cards(*p) =~= player_cards(before).insert(c));
        assert(cards@.take(i + 1) =~= cards@.take(i as int).push(c));
        proof {
            cards@.take(i as int).to_multiset_ensures();
        }
        assert(player_cards(*p) =~= player_cards(*old(p)).add(cards@.take(i + 1).to_multiset()));
        assert(p.captured.cards() =~= old(p).captured.cards().add(cards@.take(i + 1).to_multiset()));
        i = i + 1;
    }
    assert(cards@.take(i as int) =~= cards@);
}

/// A copy of `v`.
fn copy_cards(v: &Vec<Card>) -> (r: Vec<Card>)
    ensures
        r@ == v@,
{
    let mut r: Vec<Card> = Vec::new();
    let mut i: usize = 0;
    while i < v.len()
        invariant
            i <= v@.len(),
            r@ == v@.take(i as int),
        decreases v@.len() - i,
    {
        r.push(v[i]);
        assert(v@.take(i + 1) =~= v@.take(i as int).push(v@[i as int]));
        i = i + 1;
    }
    assert(v@.take(i as int) =~= v@);
    r
}

fn invalid(reason: &str) -> (r: ActionResult)
    ensures
        r matches ActionResult::Invalid { reason: s } && s@ == reason@,
{
    ActionResult::Invalid { reason: String::from_str(reason) }
}

pub open spec fn msg_ended() -> Seq<char> {
    "game has ended"@
}

pub open spec fn msg_phase() -> Seq<char> {
    "action not allowed in this phase"@
}

pub open spec fn msg_not_turn() -> Seq<char> {
    "not current player's turn"@
}

pub open spec fn msg_not_in_hand() -> Seq<char> {
    "card not in hand"@
}

pub open spec fn msg_table_size() -> Seq<char> {
    "player count does not match the table"@
}

pub open spec fn msg_unknown_player() -> Seq<char> {
    "unknown player"@
}

pub open spec fn msg_score_range() -> Seq<char> {
    "score out of range"@
}

pub open spec fn msg_not_handled() -> Seq<char> {
    "action is not handled by the engine"@
}

/// The player who requests a turn action, if the action is one.
pub open spec fn actor(a: Action) -> Option<String> {
    match a {
        Action::PlayCard { player_id, .. } => Some(player_id),
        Action::DrawFromDeck { player_id } => Some(player_id),
        Action::TakeMatchedCards { player_id, .. } => Some(player_id),
        Action::DeclareShaking { player_id, .. } => Some(player_id),
        Action::DeclareGo { player_id } => Some(player_id),
        Action::DeclareStop { player_id } => Some(player_id),
        Action::EndTurn { player_id } => Some(player_id),
        _ => None,
    }
}

/// The turn phase in which a turn action is legal.
pub open spec fn turn_of(a: Action) -> Option<TurnPhase> {
    match a {
        Action::PlayCard { .. } => Some(TurnPhase::PlayingCard),
        Action::DeclareShaking { .. } => Some(TurnPhase::PlayingCard),
        Action::DrawFromDeck { .. } => Some(TurnPhase::DrawingCard),
        Action::TakeMatchedCards { .. } => Some(TurnPhase::TakingCards),
        Action::DeclareGo { .. } => Some(TurnPhase::DecidingGoStop),
        Action::DeclareStop { .. } => Some(TurnPhase::DecidingGoStop),
        _ => None,
    }
}

/// What applying `a` to `g` does to the position of the cards, when it succeeds.
pub open spec fn play_resolved(g: Game, card: Card, h: Game, r: ActionResult) -> bool {
    let i = g.current_player_idx as int;
    let taken = g.field@.filter(month_of_card(card));
    &&& g.players@[i].hand@.contains(card)
    &&& h.players@[i].hand@.to_multiset() == g.players@[i].hand@.to_multiset().remove(card)
    &&& h.current_player_idx == g.current_player_idx
    &&& h.players@.len() == g.players@.len()
    &&& forall|j: int| 0 <= j < g.players@.len() && j != i ==> h.players@[j] == g.players@[j]
    &&& if is_bonus_card(card) {
        &&& h.field == g.field
        &&& h.players@[i].captured.cards() == g.players@[i].captured.cards().insert(card)
        &&& h.turn_phase == TurnPhase::PlayingCard
        &&& r matches ActionResult::Success {
            next_action: None,
            state_change: StateChange::CardsMoved {
                from: Location::PlayerHand(a),
                to: Location::PlayerCapture(b),
                cards,
            },
        } && a@ == g.current_id() && b@ == g.current_id() && cards@ == seq![card]
    } else if taken.len() == 0 {
        &&& h.field@.to_multiset() == g.field@.to_multiset().insert(card)
        &&& h.players@[i].captured == g.players@[i].captured
        &&& h.turn_phase == TurnPhase::DrawingCard
        &&& r matches ActionResult::Success {
            next_action: None,
            state_change: StateChange::CardsMoved { from: Location::PlayerHand(a), to: Location::Field, cards },
        } && a@ == g.current_id() && cards@ == seq![card]
    } else {
        &&& r matches ActionResult::Success {
            state_change: StateChange::CardsMoved {
                from: Location::PlayerHand(a),
                to: Location::PlayerCapture(b),
                cards,
            },
            ..
        } && a@ == g.current_id() && b@ == g.current_id() && cards@.to_multiset()
            == taken.to_multiset().insert(card)
        &&& h.field@ == g.field@.filter(other_month(card))
        &&& h.players@[i].captured.cards() == g.players@[i].captured.cards().add(
            taken.to_multiset(),
        ).insert(card)
        &&& h.turn_phase == TurnPhase::DrawingCard
        &&& taken.len() == 1 ==> h.special_conditions == g.special_conditions
        &&& taken.len() >= 2 ==> {
            &&& h.special_conditions@.len() == g.special_conditions@.len() + 1
            &&& h.special_conditions@.last().condition_type == if taken.len() == 2 {
                SpecialConditionType::Ddadak
            } else {
                SpecialConditionType::Sseul
            }
            &&& h.special_conditions@.last().player_id@ == g.current_id()
            &&& r matches ActionResult::Success {
                next_action: Some(Action::TransferPi { to_player_id, count, .. }),
                ..
            } && to_player_id@ == g.current_id() && count == 1
        }
    }
}

impl Game {
    /// Whether `id` is the id of the current player.
    fn is_current(&self, id: &String) -> (r: bool)
        requires
            self.wf(),
        ensures
            r == (id@ == self.current_id()),
    {
        self.players[self.current_player_idx].id == *id
    }

    /// Moves the turn to the next player.
    fn advance(&mut self) -> (r: ActionResult)
        requires
            old(self).wf(),
            old(self).game_phase == GamePhase::Playing,
        ensures
            final(self).wf(),
            final(self).all_cards() == old(self).all_cards(),
            final(self).current_player_idx == (old(self).current_player_idx + 1) % (
            old(self).players@.len() as int),
            final(self).turn_phase == TurnPhase::PlayingCard,
            final(self).game_phase == old(self).game_phase,
            final(self).players == old(self).players,
            final(self).go_history == old(self).go_history,
            final(self).special_conditions == old(self).special_conditions,
            final(self).nagari_count == old(self).nagari_count,
            final(self).deck == old(self).deck,
            final(self).field == old(self).field,
            r matches ActionResult::Success { next_action: None, state_change: StateChange::TurnChanged { new_player_id } }
                && new_player_id@ == final(self).current_id(),
    {
        self.current_player_idx = self.next_player_idx();
        self.turn_phase = TurnPhase::PlayingCard;
        let id = self.players[self.current_player_idx].id.clone();
        ActionResult::Success { next_action: None, state_change: StateChange::TurnChanged { new_player_id: id } }
    }
}

impl Game {
    /// Plays `card` from the current player's hand and resolves it against the field.
    #[verifier::rlimit(50)]
    fn play_card(&mut self, card: Card) -> (r: ActionResult)
        requires
            old(self).wf(),
            old(self).game_phase == GamePhase::Playing,
            old(self).turn_phase == TurnPhase::PlayingCard,
        ensures
            final(self).wf(),
            final(self).all_cards() == old(self).all_cards(),
            final(self).game_phase == old(self).game_phase,
            r is Invalid <==> !old(self).players@[old(self).current_player_idx as int].hand@.contains(
                card,
            ),
            r is Invalid ==> *final(self) == *old(self) && (r matches ActionResult::Invalid {
                reason,
            } && reason@ == msg_not_in_hand()),
            r is Success ==> play_resolved(*old(self), card, *final(self), r),
    {
        broadcast use vstd::seq_lib::group_to_multiset_ensures;

        let i = self.current_player_idx;
        let k = match find_card(&self.players[i].hand, card) {
            None => {
                return invalid("card not in hand");
            },
            Some(k) => k,
        };
        let ghost g = *self;
        let ghost ps = self.players@;
        let mut p = self.players.remove(i);
        let ghost p0 = p;
        p.hand.remove(k);
        let ghost p1 = p;
        let pid = p.id.clone();
        let single = vec![card];
        assert(single@ =~= seq![card]);
        assert(single@.to_multiset() =~= Multiset::<Card>::empty().insert(card)) by {
            assert(seq![card] =~= Seq::<Card>::empty().push(card));
        }
        assert(player_cards(p1).add(single@.to_multiset()) =~= player_cards(p0));
        if card.is_bonus() {
            capture_all(&mut p, &single);
            self.players.insert(i, p);
            proof {
                assert(self.players@ =~= ps.update(i as int, p));
                assert(player_cards(p).add(Multiset::empty()) =~= player_cards(p0).add(Multiset::empty()));
                lemma_swap_player(ps, i as int, p, Multiset::empty(), Multiset::empty());
                assert(players_cards(self.players@).add(Multiset::empty()) =~= players_cards(self.players@));
                assert(players_cards(ps).add(Multiset::empty()) =~= players_cards(ps));
                assert(players_cards(self.players@) =~= players_cards(ps));
                assert(self.all_cards() =~= g.all_cards());
                assert(self.players@[i as int].captured.cards() =~= g.players@[i as int].captured.cards().insert(card));
            }
            self.bare_play = None;
            let moved = vec![card];
            return ActionResult::Success {
                next_action: None,
                state_change: StateChange::CardsMoved {
                    from: Location::PlayerHand(pid.clone()),
                    to: Location::PlayerCapture(pid),
                    cards: moved,
                },
            };
        }
        let (kept, taken) = split_by_month(&self.field, card);
        let n = taken.len();
        if n == 0 {
            self.field.push(card);
            self.players.insert(i, p);
            proof {
                assert(self.players@ =~= ps.update(i as int, p));
                assert(player_cards(p0).add(Multiset::empty()) =~= player_cards(p0));
                lemma_swap_player(ps, i as int, p, Multiset::empty(), single@.to_multiset());
                assert(players_cards(ps).add(Multiset::empty()) =~= players_cards(ps));
                assert(self.all_cards() =~= g.all_cards());
            }
            self.turn_phase = TurnPhase::DrawingCard;
            self.bare_play = Some(card);
            return ActionResult::Success {
                next_action: None,
                state_change: StateChange::CardsMoved {
                    from: Location::PlayerHand(pid),
                    to: Location::Field,
                    cards: single,
                },
            };
        }
        let mut moved = copy_cards(&taken);
        moved.push(card);
        capture_all(&mut p, &moved);
        self.field = kept;
        self.players.insert(i, p);
        proof {
            assert(self.players@ =~= ps.update(i as int, p));
            assert(player_cards(p).add(single@.to_multiset()) =~= player_cards(p0).add(
                taken@.to_multiset(),
            ).add(single@.to_multiset()));
            assert(player_cards(p).add(single@.to_multiset()) =~= player_cards(p0).add(
                moved@.to_multiset(),
            ));
            lemma_swap_player(ps, i as int, p, moved@.to_multiset(), single@.to_multiset());
            let hk = kept@.to_multiset();
            let ht = taken@.to_multiset();
            let hs = single@.to_multiset();
            assert(hk.add(ht) == g.field@.to_multiset());
            assert(moved@.to_multiset() =~= ht.add(hs));
            assert(self.field@.to_multiset() == hk);
            assert(self.deck@ == g.deck@);
            assert forall|c: Card| #[trigger] self.all_cards().count(c) == g.all_cards().count(c) by {
                assert(players_cards(self.players@).add(hs).count(c) == players_cards(ps).add(
                    moved@.to_multiset(),
                ).count(c));
                assert(moved@.to_multiset().count(c) == ht.count(c) + hs.count(c));
                assert(hk.add(ht).count(c) == g.field@.to_multiset().count(c));
            }
            assert(self.all_cards() =~= g.all_cards());
            assert(self.players@[i as int].captured.cards() =~= g.players@[i as int].captured.cards().add(
                taken@.to_multiset(),
            ).insert(card));
        }
        self.turn_phase = TurnPhase::DrawingCard;
        self.bare_play = None;
        let mut next_action: Option<Action> = None;
        if n >= 2 {
            let kind = if n == 2 {
                SpecialConditionType::Ddadak
            } else {
                SpecialConditionType::Sseul
            };
            self.special_conditions.push(
                SpecialCondition { condition_type: kind, player_id: pid.clone(), cards: copy_cards(&moved) },
            );
            let from = self.players[self.next_player_idx()].id.clone();
            next_action = Some(Action::TransferPi { from_player_id: from, to_player_id: pid.clone(), count: 1 });
        }
        ActionResult::Success {
            next_action,
            state_change: StateChange::CardsMoved {
                from: Location::PlayerHand(pid.clone()),
                to: Location::PlayerCapture(pid),
                cards: moved,
            },
        }
    }
}

/// What drawing `card` from the deck does to the field and the current player's captures.
pub open spec fn draw_resolved(g: Game, card: Card, h: Game, r: ActionResult) -> bool {
    let i = g.current_player_idx as int;
    let taken = g.field@.filter(month_of_card(card));
    &&& h.deck@ == g.deck@.drop_last()
    &&& h.players@.len() == g.players@.len()
    &&& h.players@[i].hand == g.players@[i].hand
    &&& h.players@[i].id == g.players@[i].id
    &&& forall|j: int| 0 <= j < g.players@.len() && j != i ==> h.players@[j] == g.players@[j]
    &&& h.turn_phase == TurnPhase::TakingCards
    &&& if is_bonus_card(card) {
        &&& h.field == g.field
        &&& h.players@[i].captured.cards() == g.players@[i].captured.cards().insert(card)
    } else if taken.len() == 0 {
        &&& h.field@.to_multiset() == g.field@.to_multiset().insert(card)
        &&& h.players@[i].captured == g.players@[i].captured
        &&& g.bare_play is Some ==> {
            &&& h.special_conditions@.len() == g.special_conditions@.len() + 1
            &&& h.special_conditions@.last().condition_type == SpecialConditionType::Ppuk
            &&& h.special_conditions@.last().cards@ == seq![g.bare_play->0, card]
            &&& h.players@[i].ppuk_count == if g.players@[i].ppuk_count < 255 {
                (g.players@[i].ppuk_count + 1) as u8
            } else {
                255
            }
        }
        &&& g.bare_play is None ==> h.special_conditions == g.special_conditions
    } else {
        &&& h.field@ == g.field@.filter(other_month(card))
        &&& h.players@[i].captured.cards() == g.players@[i].captured.cards().add(
            taken.to_multiset(),
        ).insert(card)
        &&& (taken.len() >= 2 || g.bare_play == Some(taken[0])) ==> {
            &&& h.special_conditions@.len() == g.special_conditions@.len() + 1
            &&& h.special_conditions@.last().condition_type == if taken.len() == 1 {
                SpecialConditionType::Jjok
            } else if taken.len() == 2 {
                SpecialConditionType::Ddadak
            } else {
                SpecialConditionType::Sseul
            }
            &&& r matches ActionResult::Success {
                next_action: Some(Action::TransferPi { to_player_id, count, .. }),
                ..
            } && to_player_id@ == g.current_id() && count == 1
        }
    }
}

impl Game {
    /// Draws the top card of the deck and resolves it against the field; with the
    /// deck exhausted the round goes to scoring.
    ///
    /// A drawn card that captures exactly the card laid bare by this turn's play is
    /// a jjok; where the played card and the drawn card both stay bare, the pair is
    /// stuck (ppuk) and counts against the player. Regional variants differ here.
    #[verifier::rlimit(50)]
    fn draw_card(&mut self) -> (r: ActionResult)
        requires
            old(self).wf(),
            old(self).game_phase == GamePhase::Playing,
            old(self).turn_phase == TurnPhase::DrawingCard,
        ensures
            final(self).wf(),
            final(self).all_cards() == old(self).all_cards(),
            r is Success,
            old(self).deck@.len() == 0 ==> final(self).game_phase == GamePhase::Scoring
                && final(self).players == old(self).players,
            old(self).deck@.len() > 0 ==> final(self).game_phase == GamePhase::Playing
                && draw_resolved(*old(self), old(self).deck@.last(), *final(self), r),
    {
        broadcast use vstd::seq_lib::group_to_multiset_ensures;

        let ghost g = *self;
        let card = match self.deck.pop() {
            None => {
                self.game_phase = GamePhase::Scoring;
                return ActionResult::Success {
                    next_action: None,
                    state_change: StateChange::CardsMoved {
                        from: Location::Deck,
                        to: Location::Field,
                        cards: Vec::new(),
                    },
                };
            },
            Some(c) => c,
        };
        assert(g.deck@ =~= self.deck@.push(card));
        let i = self.current_player_idx;
        let ghost ps = self.players@;
        let mut p = self.players.remove(i);
        let ghost p0 = p;
        let pid = p.id.clone();
        let single = vec![card];
        assert(single@.to_multiset() =~= Multiset::<Card>::empty().insert(card)) by {
            assert(single@ =~= Seq::<Card>::empty().push(card));
        }
        let hs = Ghost(single@.to_multiset());
        assert(g.deck@.to_multiset() =~= self.deck@.to_multiset().add(hs@));
        self.turn_phase = TurnPhase::TakingCards;
        if card.is_bonus() {
            capture_all(&mut p, &single);
            self.players.insert(i, p);
            proof {
                assert(self.players@ =~= ps.update(i as int, p));
                assert(player_cards(p0).add(Multiset::empty()) =~= player_cards(p0));
                assert(player_cards(p).add(Multiset::empty()) =~= player_cards(p));
                lemma_swap_player(ps, i as int, p, hs@, Multiset::empty());
                assert(self.players@[i as int].captured.cards() =~= g.players@[i as int].captured.cards().insert(card));
                assert(players_cards(self.players@).add(Multiset::empty()) =~= players_cards(self.players@));
                assert forall|c: Card| #[trigger] self.all_cards().count(c) == g.all_cards().count(c) by {
                    assert(players_cards(self.players@).add(Multiset::empty()).count(c)
                        == players_cards(ps).add(hs@).count(c));
                }
                assert(self.all_cards() =~= g.all_cards());
            }
            self.bare_play = None;
            return ActionResult::Success {
                next_action: None,
                state_change: StateChange::CardsMoved {
                    from: Location::Deck,
                    to: Location::PlayerCapture(pid),
                    cards: single,
                },
            };
        }
        let (kept, taken) = split_by_month(&self.field, card);
        let n = taken.len();
        if n == 0 {
            let stuck = match self.bare_play {
                Some(b) => {
                    if p.ppuk_count < 255 {
                        p.ppuk_count = p.ppuk_count + 1;
                    }
                    let pair = vec![b, card];
                    self.special_conditions.push(
                        SpecialCondition {
                            condition_type: SpecialConditionType::Ppuk,
                            player_id: pid.clone(),
                            cards: pair,
                        },
                    );
                    true
                },
                None => false,
            };
            self.field.push(card);
            self.players.insert(i, p);
            proof {
                assert(self.players@ =~= ps.update(i as int, p));
                assert(player_cards(p) == player_cards(p0));
                assert(player_cards(p).add(Multiset::empty()) =~= player_cards(p));
                assert(player_cards(p0).add(Multiset::empty()) =~= player_cards(p0));
                lemma_swap_player(ps, i as int, p, Multiset::empty(), Multiset::empty());
                assert(players_cards(self.players@).add(Multiset::empty()) =~= players_cards(self.players@));
                assert(players_cards(ps).add(Multiset::empty()) =~= players_cards(ps));
                assert(players_cards(self.players@) == players_cards(ps));
                assert(self.all_cards() =~= g.all_cards());
            }
            self.bare_play = None;
            return ActionResult::Success {
                next_action: None,
                state_change: StateChange::CardsMoved {
                    from: Location::Deck,
                    to: Location::Field,
                    cards: single,
                },
            };
        }
        let jjok = n == 1 && match self.bare_play {
            Some(b) => b == taken[0],
            None => false,
        };
        let mut moved = copy_cards(&taken);
        moved.push(card);
        capture_all(&mut p, &moved);
        self.field = kept;
        self.players.insert(i, p);
        proof {
            assert(self.players@ =~= ps.update(i as int, p));
            assert(player_cards(p0).add(Multiset::empty()) =~= player_cards(p0));
            assert(player_cards(p).add(Multiset::empty()) =~= player_cards(p));
            lemma_swap_player(ps, i as int, p, moved@.to_multiset(), Multiset::empty());
            let hk = kept@.to_multiset();
            let ht = taken@.to_multiset();
            assert(hk.add(ht) == g.field@.to_multiset());
            assert(moved@.to_multiset() =~= ht.add(hs@));
            assert forall|c: Card| #[trigger] self.all_cards().count(c) == g.all_cards().count(c) by {
                assert(players_cards(self.players@).add(Multiset::empty()).count(c)
                    == players_cards(ps).add(moved@.to_multiset()).count(c));
                assert(moved@.to_multiset().count(c) == ht.count(c) + hs@.count(c));
                assert(hk.add(ht).count(c) == g.field@.to_multiset().count(c));
            }
            assert(self.all_cards() =~= g.all_cards());
            assert(self.players@[i as int].captured.cards() =~= g.players@[i as int].captured.cards().add(
                taken@.to_multiset(),
            ).insert(card));
        }
        self.bare_play = None;
        let mut next_action: Option<Action> = None;
        if n >= 2 || jjok {
            let kind = if n == 1 {
                SpecialConditionType::Jjok
            } else if n == 2 {
                SpecialConditionType::Ddadak
            } else {
                SpecialConditionType::Sseul
            };
            self.special_conditions.push(
                SpecialCondition { condition_type: kind, player_id: pid.clone(), cards: copy_cards(&moved) },
            );
            let from = self.players[self.next_player_idx()].id.clone();
            next_action = Some(Action::TransferPi { from_player_id: from, to_player_id: pid.clone(), count: 1 });
        }
        ActionResult::Success {
            next_action,
            state_change: StateChange::CardsMoved {
                from: Location::Deck,
                to: Location::PlayerCapture(pid),
                cards: moved,
            },
        }
    }
}

impl Game {
    /// Recomputes the current player's score; from the Go/Stop threshold on, the
    /// player decides between Go and Stop, else the turn passes on.
    fn take_cards(&mut self) -> (r: ActionResult)
        requires
            old(self).wf(),
            old(self).game_phase == GamePhase::Playing,
            old(self).turn_phase == TurnPhase::TakingCards,
        ensures
            final(self).wf(),
            final(self).all_cards() == old(self).all_cards(),
            final(self).game_phase == GamePhase::Playing,
            r is Invalid <==> !score_fits(old(self).players@[old(self).current_player_idx as int]),
            r is Invalid ==> *final(self) == *old(self) && (r matches ActionResult::Invalid {
                reason,
            } && reason@ == msg_score_range()),
            r is Success ==> {
                let i = old(self).current_player_idx as int;
                let p = final(self).players@[i];
                &&& refreshed(old(self).players@[i], p)
                &&& p.score.base_score >= GO_STOP_THRESHOLD ==> final(self).turn_phase
                    == TurnPhase::DecidingGoStop && final(self).current_player_idx
                    == old(self).current_player_idx
                &&& p.score.base_score < GO_STOP_THRESHOLD ==> final(self).turn_phase
                    == TurnPhase::PlayingCard && final(self).current_player_idx == (i + 1) % (
                old(self).players@.len() as int)
            },
    {
        let i = self.current_player_idx;
        if !self.players[i].score_in_range() {
            return invalid("score out of range");
        }
        let ghost g = *self;
        let ghost ps = self.players@;
        let mut p = self.players.remove(i);
        let ghost p0 = p;
        p.update_final_score();
        let reached = p.score.base_score >= GO_STOP_THRESHOLD;
        let pid = p.id.clone();
        let new_score = p.score.final_score;
        self.players.insert(i, p);
        proof {
            assert(self.players@ =~= ps.update(i as int, p));
            assert(player_cards(p) == player_cards(p0));
            assert(player_cards(p).add(Multiset::empty()) =~= player_cards(p));
            assert(player_cards(p0).add(Multiset::empty()) =~= player_cards(p0));
            lemma_swap_player(ps, i as int, p, Multiset::empty(), Multiset::empty());
            assert(players_cards(self.players@).add(Multiset::empty()) =~= players_cards(self.players@));
            assert(players_cards(ps).add(Multiset::empty()) =~= players_cards(ps));
            assert(self.all_cards() =~= g.all_cards());
        }
        if reached {
            self.turn_phase = TurnPhase::DecidingGoStop;
            ActionResult::Success {
                next_action: None,
                state_change: StateChange::ScoreUpdated { player_id: pid, new_score },
            }
        } else {
            self.advance()
        }
    }

    /// The current player goes on: one more Go, recorded with the score at that moment.
    fn declare_go(&mut self) -> (r: ActionResult)
        requires
            old(self).wf(),
            old(self).game_phase == GamePhase::Playing,
            old(self).turn_phase == TurnPhase::DecidingGoStop,
        ensures
            final(self).wf(),
            final(self).all_cards() == old(self).all_cards(),
            final(self).game_phase == GamePhase::Playing,
            r is Invalid <==> old(self).players@[old(self).current_player_idx as int].score.go_count
                == 255,
            r is Invalid ==> *final(self) == *old(self),
            r is Success ==> {
                let i = old(self).current_player_idx as int;
                &&& final(self).players@[i].score.go_count == old(self).players@[i].score.go_count + 1
                &&& final(self).go_history@.len() == old(self).go_history@.len() + 1
                &&& final(self).go_history@.last().score_at_go == old(self).players@[i].score.final_score
                &&& final(self).turn_phase == TurnPhase::PlayingCard
                &&& final(self).current_player_idx == (i + 1) % (old(self).players@.len() as int)
            },
    {
        let i = self.current_player_idx;
        if self.players[i].score.go_count == 255 {
            return invalid("score out of range");
        }
        let ghost g = *self;
        let ghost ps = self.players@;
        let mut p = self.players.remove(i);
        let ghost p0 = p;
        p.score.go_count = p.score.go_count + 1;
        let entry = GoHistory {
            player_id: p.id.clone(),
            round: self.current_round,
            score_at_go: p.score.final_score,
        };
        self.players.insert(i, p);
        self.go_history.push(entry);
        proof {
            assert(self.players@ =~= ps.update(i as int, p));
            assert(player_cards(p) == player_cards(p0));
            assert(player_cards(p).add(Multiset::empty()) =~= player_cards(p));
            assert(player_cards(p0).add(Multiset::empty()) =~= player_cards(p0));
            lemma_swap_player(ps, i as int, p, Multiset::empty(), Multiset::empty());
            assert(players_cards(self.players@).add(Multiset::empty()) =~= players_cards(self.players@));
            assert(players_cards(ps).add(Multiset::empty()) =~= players_cards(ps));
            assert(self.all_cards() =~= g.all_cards());
        }
        self.advance()
    }

    /// The current player stops: the Go count and any pending no-winner rounds enter
    /// the multiplier log, the score is recomputed and the round goes to scoring.
    fn declare_stop(&mut self) -> (r: ActionResult)
        requires
            old(self).wf(),
            old(self).game_phase == GamePhase::Playing,
            old(self).turn_phase == TurnPhase::DecidingGoStop,
        ensures
            final(self).wf(),
            final(self).all_cards() == old(self).all_cards(),
            r is Success ==> {
                let i = old(self).current_player_idx as int;
                let q = final(self).players@[i];
                &&& final(self).game_phase == GamePhase::Scoring
                &&& final(self).nagari_count == 0
                &&& q.score.final_score == q.score.base_score * q.score.total_multiplier
                &&& q.score.multipliers@.len() >= old(self).players@[i].score.multipliers@.len()
                &&& r matches ActionResult::Success {
                    state_change: StateChange::ScoreUpdated { new_score, .. },
                    next_action: None,
                } && new_score == q.score.final_score
            },
            r matches ActionResult::Invalid { reason } ==> reason@ == msg_score_range(),
            r is Success <==> scores_fit(
                old(self).players@[old(self).current_player_idx as int].captured,
                stop_log(*old(self)),
            ),
    {
        let i = self.current_player_idx;
        let ghost g = *self;
        let ghost ps = self.players@;
        let mut p = self.players.remove(i);
        let ghost p0 = p;
        if p.score.go_count > 0 {
            p.score.multipliers.push(ScoreMultiplier::Go(p.score.go_count));
        }
        if self.nagari_count > 0 {
            p.score.multipliers.push(ScoreMultiplier::Nagari(self.nagari_count));
        }
        assert(p.score.multipliers@ == stop_log(g));
        let fits = p.score_in_range();
        if fits {
            p.update_final_score();
        }
        let pid = p.id.clone();
        let new_score = p.score.final_score;
        self.players.insert(i, p);
        proof {
            assert(self.players@ =~= ps.update(i as int, p));
            assert(player_cards(p) == player_cards(p0));
            assert(player_cards(p).add(Multiset::empty()) =~= player_cards(p));
            assert(player_cards(p0).add(Multiset::empty()) =~= player_cards(p0));
            lemma_swap_player(ps, i as int, p, Multiset::empty(), Multiset::empty());
            assert(players_cards(self.players@).add(Multiset::empty()) =~= players_cards(self.players@));
            assert(players_cards(ps).add(Multiset::empty()) =~= players_cards(ps));
            assert(self.all_cards() =~= g.all_cards());
        }
        if !fits {
            return invalid("score out of range");
        }
        self.nagari_count = 0;
        self.game_phase = GamePhase::Scoring;
        ActionResult::Success {
            next_action: None,
            state_change: StateChange::ScoreUpdated { player_id: pid, new_score },
        }
    }
}

impl Game {
    /// The index of the player with id `id`, if there is one.
    fn find_player(&self, id: &String) -> (r: Option<usize>)
        ensures
            match r {
                Some(k) => k < self.players@.len() && self.players@[k as int].id@ == id@ && forall|
                    j: int,
                | 0 <= j < k ==> self.players@[j].id@ != id@,
                None => forall|k: int| 0 <= k < self.players@.len() ==> self.players@[k].id@ != id@,
            },
    {
        let mut k: usize = 0;
        while k < self.players.len()
            invariant
                k <= self.players@.len(),
                forall|j: int| 0 <= j < k ==> self.players@[j].id@ != id@,
            decreases self.players@.len() - k,
        {
            if self.players[k].id == *id {
                return Some(k);
            }
            k = k + 1;
        }
        None
    }

    /// Moves up to `count` pi-bucket cards from one player to another.
    fn transfer_pi(&mut self, from: &String, to: &String, count: u8) -> (r: ActionResult)
        requires
            old(self).wf(),
        ensures
            final(self).wf(),
            final(self).all_cards() == old(self).all_cards(),
            final(self).game_phase == old(self).game_phase,
            final(self).turn_phase == old(self).turn_phase,
            final(self).current_player_idx == old(self).current_player_idx,
            r is Invalid ==> *final(self) == *old(self) && (r matches ActionResult::Invalid {
                reason,
            } && reason@ == msg_unknown_player()),
            r is Success <==> transfer_allowed(*old(self), from@, to@),
    {
        broadcast use vstd::seq_lib::group_to_multiset_ensures;

        let fi = match self.find_player(from) {
            Some(k) => k,
            None => {
                return invalid("unknown player");
            },
        };
        let ti = match self.find_player(to) {
            Some(k) => k,
            None => {
                return invalid("unknown player");
            },
        };
        if fi == ti {
            return invalid("unknown player");
        }
        proof {
            assert(old(self).players@[fi as int].id@ == from@);
            assert(old(self).players@[ti as int].id@ == to@);
            if from@ == to@ {
                if fi < ti {
                    assert(self.players@[fi as int].id@ != to@);
                } else {
                    assert(self.players@[ti as int].id@ != from@);
                }
            }
        }
        let ghost g = *self;
        let ghost ps = self.players@;
        let mut a = self.players.remove(fi);
        let ghost a0 = a;
        let mut moved: Vec<Card> = Vec::new();
        let mut k: u8 = 0;
        while k < count && a.captured.pi.len() > 0
            invariant
                player_cards(a).add(moved@.to_multiset()) == player_cards(a0),
                a.hand == a0.hand,
            decreases count - k,
        {
            let ghost before = a;
            match a.captured.pi.pop() {
                Some(c) => {
                    let ghost m0 = moved@;
                    proof {
                        assert(before.captured.pi@ =~= a.captured.pi@.push(c));
                        lemma_pi_push(a, before, c);
                    }
                    moved.push(c);
                    proof {
                        assert(moved@ =~= m0.push(c));
                        m0.to_multiset_ensures();
                        assert(moved@.to_multiset() == m0.to_multiset().insert(c));
                        assert forall|x: Card| #[trigger] player_cards(a).add(moved@.to_multiset()).count(x)
                            == player_cards(a0).count(x) by {
                            assert(player_cards(before).add(m0.to_multiset()).count(x) == player_cards(a0).count(x));
                        }
                        assert(player_cards(a).add(moved@.to_multiset()) =~= player_cards(a0));
                    }
                },
                None => {},
            }
            k = k + 1;
        }
        self.players.insert(fi, a);
        let ghost ps1 = self.players@;
        proof {
            assert(ps1 =~= ps.update(fi as int, a));
            assert(player_cards(a0).add(Multiset::empty()) =~= player_cards(a0));
            lemma_swap_player(ps, fi as int, a, Multiset::empty(), moved@.to_multiset());
        }
        let mut b = self.players.remove(ti);
        let ghost b0 = b;
        let mut j: usize = 0;
        while j < moved.len()
            invariant
                j <= moved@.len(),
                player_cards(b) == player_cards(b0).add(moved@.take(j as int).to_multiset()),
            decreases moved@.len() - j,
        {
            let ghost before = b;
            b.captured.pi.push(moved[j]);
            proof {
                assert(moved@.take(j + 1) =~= moved@.take(j as int).push(moved@[j as int]));
                lemma_pi_push(before, b, moved@[j as int]);
                moved@.take(j as int).to_multiset_ensures();
                assert forall|x: Card| #[trigger] player_cards(b).count(x) == player_cards(b0).add(
                    moved@.take(j + 1).to_multiset(),
                ).count(x) by {}
                assert(player_cards(b) =~= player_cards(b0).add(moved@.take(j + 1).to_multiset()));
            }
            j = j + 1;
        }
        self.players.insert(ti, b);
        proof {
            assert(moved@.take(j as int) =~= moved@);
            assert(self.players@ =~= ps1.update(ti as int, b));
            assert(player_cards(b).add(Multiset::empty()) =~= player_cards(b));
            lemma_swap_player(ps1, ti as int, b, moved@.to_multiset(), Multiset::empty());
            assert forall|c: Card| #[trigger] self.all_cards().count(c) == g.all_cards().count(c) by {
                assert(players_cards(self.players@).add(Multiset::empty()).count(c) == players_cards(
                    ps1,
                ).add(moved@.to_multiset()).count(c));
                assert(players_cards(ps1).add(moved@.to_multiset()).count(c) == players_cards(ps).add(
                    Multiset::empty(),
                ).count(c));
            }
            assert(self.all_cards() =~= g.all_cards());
        }
        let from_id = self.players[fi].id.clone();
        let to_id = self.players[ti].id.clone();
        ActionResult::Success {
            next_action: None,
            state_change: StateChange::CardsMoved {
                from: Location::PlayerCapture(from_id),
                to: Location::PlayerCapture(to_id),
                cards: moved,
            },
        }
    }
}

/// Cards of month `m`.
pub open spec fn in_month(m: u8) -> spec_fn(Card) -> bool {
    |c: Card| month_of(c) == Some(m)
}

/// The cards of month `m` in `v`, in order.
fn month_cards(v: &Vec<Card>, m: u8) -> (r: Vec<Card>)
    ensures
        r@ == v@.filter(in_month(m)),
{
    let mut r: Vec<Card> = Vec::new();
    let mut i: usize = 0;
    assert(v@.take(0) =~= Seq::<Card>::empty());
    reveal_with_fuel(Seq::filter, 1);
    while i < v.len()
        invariant
            i <= v@.len(),
            r@ == v@.take(i as int).filter(in_month(m)),
        decreases v@.len() - i,
    {
        assert(v@.take(i + 1).drop_last() =~= v@.take(i as int));
        reveal_with_fuel(Seq::filter, 1);
        if v[i].month() == Some(m) {
            r.push(v[i]);
        }
        i = i + 1;
    }
    assert(v@.take(i as int) =~= v@);
    r
}

/// A chongtong record: all four cards of one month, held in one hand at the deal.
pub open spec fn chongtong_of(g: Game, s: SpecialCondition) -> bool {
    &&& s.condition_type == SpecialConditionType::Chongtong
    &&& exists|j: int, m: u8|
        0 <= j < g.players@.len() && s.player_id == g.players@[j].id && s.cards@
            == #[trigger] g.players@[j].hand@.filter(in_month(m)) && s.cards@.len() == 4
}

pub open spec fn msg_short_deck() -> Seq<char> {
    "not enough cards to deal"@
}

impl Game {
    /// Moves the top card of the deck into the hand of the player at `j`.
    fn deal_one(&mut self, j: usize)
        requires
            j < old(self).players@.len(),
            old(self).deck@.len() > 0,
        ensures
            final(self).all_cards() == old(self).all_cards(),
            final(self).deck@ == old(self).deck@.drop_last(),
            final(self).players@.len() == old(self).players@.len(),
            final(self).field == old(self).field,
            final(self).game_phase == old(self).game_phase,
            final(self).current_player_idx == old(self).current_player_idx,
            final(self).special_conditions == old(self).special_conditions,
            final(self).players@[j as int].hand@ == old(self).players@[j as int].hand@.push(
                old(self).deck@.last(),
            ),
            same_but_hand(old(self).players@[j as int], final(self).players@[j as int]),
            forall|k: int|
                0 <= k < old(self).players@.len() && k != j ==> final(self).players@[k]
                    == old(self).players@[k],
    {
        broadcast use vstd::seq_lib::group_to_multiset_ensures;

        let ghost g = *self;
        let ghost ps = self.players@;
        let mut p = self.players.remove(j);
        let ghost p0 = p;
        match self.deck.pop() {
            Some(c) => {
                p.hand.push(c);
                self.players.insert(j, p);
                proof {
                    assert(g.deck@ =~= self.deck@.push(c));
                    let hc = Multiset::<Card>::empty().insert(c);
                    assert(player_cards(p) =~= player_cards(p0).add(hc));
                    assert(player_cards(p0).add(hc).add(Multiset::empty()) =~= player_cards(p0).add(hc));
                    assert(player_cards(p).add(Multiset::empty()) =~= player_cards(p));
                    assert(self.players@ =~= ps.update(j as int, p));
                    lemma_swap_player(ps, j as int, p, hc, Multiset::empty());
                    assert forall|x: Card| #[trigger] self.all_cards().count(x) == g.all_cards().count(x) by {
                        assert(players_cards(self.players@).add(Multiset::empty()).count(x)
                            == players_cards(ps).add(hc).count(x));
                    }
                    assert(self.all_cards() =~= g.all_cards());
                }
            },
            None => {
                self.players.insert(j, p);
                assert(self.players@ =~= ps);
            },
        }
    }

    /// Records a chongtong for every player dealt all four cards of a month.
    fn record_chongtong(&mut self)
        ensures
            final(self).all_cards() == old(self).all_cards(),
            final(self).players == old(self).players,
            final(self).deck == old(self).deck,
            final(self).field == old(self).field,
            final(self).game_phase == old(self).game_phase,
            final(self).turn_phase == old(self).turn_phase,
            final(self).current_player_idx == old(self).current_player_idx,
            final(self).bare_play == old(self).bare_play,
            final(self).special_conditions@.len() >= old(self).special_conditions@.len(),
            forall|k: int| 0 <= k < old(self).special_conditions@.len() ==> final(self).special_conditions@[k]
                == old(self).special_conditions@[k],
            forall|k: int|
                old(self).special_conditions@.len() <= k < final(self).special_conditions@.len()
                    ==> chongtong_of(*final(self), #[trigger] final(self).special_conditions@[k]),
    {
        let mut j: usize = 0;
        while j < self.players.len()
            invariant
                j <= self.players@.len(),
                self.players == old(self).players,
                self.deck == old(self).deck,
                self.field == old(self).field,
                self.game_phase == old(self).game_phase,
                self.turn_phase == old(self).turn_phase,
                self.current_player_idx == old(self).current_player_idx,
                self.bare_play == old(self).bare_play,
                self.special_conditions@.len() >= old(self).special_conditions@.len(),
                forall|k: int| 0 <= k < old(self).special_conditions@.len() ==> self.special_conditions@[k]
                    == old(self).special_conditions@[k],
                forall|k: int|
                    old(self).special_conditions@.len() <= k < self.special_conditions@.len()
                        ==> chongtong_of(*self, #[trigger] self.special_conditions@[k]),
            decreases self.players@.len() - j,
        {
            let mut m: u8 = 1;
            while m <= 12
                invariant
                    j < self.players@.len(),
                    1 <= m <= 13,
                    self.players == old(self).players,
                    self.deck == old(self).deck,
                    self.field == old(self).field,
                    self.game_phase == old(self).game_phase,
                    self.turn_phase == old(self).turn_phase,
                    self.current_player_idx == old(self).current_player_idx,
                    self.bare_play == old(self).bare_play,
                    self.special_conditions@.len() >= old(self).special_conditions@.len(),
                    forall|k: int| 0 <= k < old(self).special_conditions@.len() ==> self.special_conditions@[k]
                        == old(self).special_conditions@[k],
                    forall|k: int|
                        old(self).special_conditions@.len() <= k < self.special_conditions@.len()
                            ==> chongtong_of(*self, #[trigger] self.special_conditions@[k]),
                decreases 13 - m,
            {
                let four = month_cards(&self.players[j].hand, m);
                if four.len() == 4 {
                    let s = SpecialCondition {
                        condition_type: SpecialConditionType::Chongtong,
                        player_id: self.players[j].id.clone(),
                        cards: four,
                    };
                    let ghost before = *self;
                    self.special_conditions.push(s);
                    proof {
                        assert(chongtong_of(*self, s)) by {
                            assert(s.cards@ == self.players@[j as int].hand@.filter(in_month(m)));
                        }
                        assert forall|k: int|
                            old(self).special_conditions@.len() <= k < self.special_conditions@.len()
                                implies chongtong_of(*self, #[trigger] self.special_conditions@[k]) by {
                            if k < before.special_conditions@.len() {
                                assert(self.special_conditions@[k] == before.special_conditions@[k]);
                                assert(chongtong_of(before, before.special_conditions@[k]));
                            }
                        }
                    }
                }
                m = m + 1;
            }
            j = j + 1;
        }
    }

    /// Deals a round. `cards`, as a shuffle put them, go on top of the deck; then
    /// each player in turn takes `hand_size` cards from the top, `field_size` cards
    /// are laid on the field, and play begins with the first player.
    pub fn deal(&mut self, cards: Vec<Card>, hand_size: usize, field_size: usize) -> (r: Result<
        (),
        String,
    >)
        requires
            old(self).wf(),
        ensures
            final(self).wf(),
            r is Ok <==> {
                &&& old(self).game_phase == GamePhase::Starting || old(self).game_phase
                    == GamePhase::Dealing
                &&& old(self).players@.len() * hand_size + field_size <= old(self).deck@.len()
                    + cards@.len()
                &&& old(self).players@.len() * hand_size + field_size <= usize::MAX
            },
            r is Err ==> *final(self) == *old(self),
            r matches Err(e) ==> e@ == if old(self).game_phase == GamePhase::Starting
                || old(self).game_phase == GamePhase::Dealing {
                msg_short_deck()
            } else {
                msg_phase()
            },
            r is Ok ==> {
                &&& final(self).all_cards() == old(self).all_cards().add(cards@.to_multiset())
                &&& final(self).game_phase == GamePhase::Playing
                &&& final(self).turn_phase == TurnPhase::PlayingCard
                &&& final(self).current_player_idx == 0
                &&& final(self).players@.len() == old(self).players@.len()
                &&& forall|k: int|
                    0 <= k < old(self).players@.len() ==> same_but_hand(
                        old(self).players@[k],
                        #[trigger] final(self).players@[k],
                    )
                &&& final(self).special_conditions@.len() >= old(self).special_conditions@.len()
                &&& forall|k: int|
                    0 <= k < old(self).special_conditions@.len() ==> final(self).special_conditions@[k]
                        == old(self).special_conditions@[k]
                &&& forall|k: int|
                    old(self).special_conditions@.len() <= k < final(self).special_conditions@.len()
                        ==> chongtong_of(*final(self), #[trigger] final(self).special_conditions@[k])
                &&& final(self).field@.len() == old(self).field@.len() + field_size
                &&& forall|k: int|
                    0 <= k < old(self).players@.len() ==> (#[trigger] final(self).players@[k]).hand@.len()
                        == old(self).players@[k].hand@.len() + hand_size
            },
            r is Ok && old(self).game_phase == GamePhase::Starting && cards@.to_multiset()
                == catalog().to_multiset() ==> final(self).holds_catalog(),
    {
        broadcast use vstd::seq_lib::group_to_multiset_ensures;

        if self.game_phase != GamePhase::Starting && self.game_phase != GamePhase::Dealing {
            return Err(String::from_str("action not allowed in this phase"));
        }
        let n = self.players.len();
        let need = match n.checked_mul(hand_size) {
            Some(x) => x.checked_add(field_size),
            None => None,
        };
        let need = match need {
            Some(x) => x,
            None => {
                proof {
                    assert(n * hand_size + field_size > usize::MAX) by (nonlinear_arith)
                        requires
                            n * hand_size > usize::MAX || n * hand_size + field_size > usize::MAX,
                    ;
                }
                return Err(String::from_str("not enough cards to deal"));
            },
        };
        let enough = match self.deck.len().checked_add(cards.len()) {
            Some(avail) => need <= avail,
            None => true,
        };
        if !enough {
            return Err(String::from_str("not enough cards to deal"));
        }
        let ghost g = *self;
        let mut cards = cards;
        let ghost cs = cards@;
        self.deck.append(&mut cards);
        assert(self.deck@.to_multiset() =~= g.deck@.to_multiset().add(cs.to_multiset())) by {
            vstd::seq_lib::lemma_multiset_commutative(g.deck@, cs);
        }
        let ghost total = self.all_cards();
        assert(total =~= g.all_cards().add(cs.to_multiset()));
        let mut j: usize = 0;
        while j < n
            invariant
                n == self.players@.len(),
                n == g.players@.len(),
                j <= n,
                self.all_cards() == total,
                self.deck@.len() >= (n - j) * hand_size + field_size,
                self.field == g.field,
                self.game_phase == g.game_phase,
                self.current_player_idx == g.current_player_idx,
                self.special_conditions == g.special_conditions,
                forall|k: int|
                    0 <= k < j ==> (#[trigger] self.players@[k]).hand@.len() == g.players@[k].hand@.len()
                        + hand_size,
                forall|k: int| 0 <= k < n ==> same_but_hand(g.players@[k], #[trigger] self.players@[k]),
                forall|k: int| j <= k < n ==> #[trigger] self.players@[k] == g.players@[k],
            decreases n - j,
        {
            let ghost hand0 = self.players@[j as int].hand@.len();
            let mut t: usize = 0;
            proof {
                assert((n - j) * hand_size == (n - j - 1) * hand_size + hand_size) by (nonlinear_arith);
            }
            while t < hand_size
                invariant
                    n == self.players@.len(),
                    j < n,
                    t <= hand_size,
                    self.all_cards() == total,
                    self.deck@.len() >= (n - j - 1) * hand_size + field_size + (hand_size - t),
                    self.field == g.field,
                    self.game_phase == g.game_phase,
                    self.current_player_idx == g.current_player_idx,
                    self.special_conditions == g.special_conditions,
                    self.players@[j as int].hand@.len() == hand0 + t,
                    forall|k: int|
                        0 <= k < j ==> (#[trigger] self.players@[k]).hand@.len() == g.players@[k].hand@.len()
                            + hand_size,
                    forall|k: int| 0 <= k < n ==> same_but_hand(g.players@[k], #[trigger] self.players@[k]),
                    forall|k: int| j < k < n ==> #[trigger] self.players@[k] == g.players@[k],
                decreases hand_size - t,
            {
                proof {
                    assert((n - j - 1) * hand_size >= 0) by (nonlinear_arith)
                        requires
                            j < n,
                    ;
                }
                self.deal_one(j);
                t = t + 1;
            }
            j = j + 1;
        }
        let mut f: usize = 0;
        while f < field_size
            invariant
                n == self.players@.len(),
                f <= field_size,
                self.all_cards() == total,
                self.deck@.len() >= field_size - f,
                self.field@.len() == g.field@.len() + f,
                self.game_phase == g.game_phase,
                self.special_conditions == g.special_conditions,
                self.current_player_idx == g.current_player_idx,
                forall|k: int|
                    0 <= k < n ==> (#[trigger] self.players@[k]).hand@.len() == g.players@[k].hand@.len()
                        + hand_size,
                forall|k: int| 0 <= k < n ==> same_but_hand(g.players@[k], #[trigger] self.players@[k]),
            decreases field_size - f,
        {
            let ghost before = *self;
            match self.deck.pop() {
                Some(c) => {
                    self.field.push(c);
                    proof {
                        assert(before.deck@ =~= self.deck@.push(c));
                        assert(self.players@ == before.players@);
                        assert(self.field@ =~= before.field@.push(c));
                        self.deck@.to_multiset_ensures();
                        before.field@.to_multiset_ensures();
                        assert forall|x: Card| #[trigger] self.all_cards().count(x) == before.all_cards().count(
                            x,
                        ) by {
                            assert(before.deck@.to_multiset().count(x) == self.deck@.to_multiset().insert(
                                c,
                            ).count(x));
                            assert(self.field@.to_multiset().count(x) == before.field@.to_multiset().insert(
                                c,
                            ).count(x));
                        }
                        assert(self.all_cards() =~= before.all_cards());
                    }
                },
                None => {},
            }
            f = f + 1;
        }
        self.game_phase = GamePhase::Playing;
        self.turn_phase = TurnPhase::PlayingCard;
        self.current_player_idx = 0;
        self.bare_play = None;
        self.record_chongtong();
        proof {
            if g.game_phase == GamePhase::Starting {
                assert(g.all_cards() == Multiset::<Card>::empty());
                assert(Multiset::<Card>::empty().add(cs.to_multiset()) =~= cs.to_multiset());
            }
        }
        Ok(())
    }
}

/// Both ids name players of `g`, and they differ.
pub open spec fn transfer_allowed(g: Game, from: Seq<char>, to: Seq<char>) -> bool {
    &&& exists|k: int| 0 <= k < g.players@.len() && (#[trigger] g.players@[k]).id@ == from
    &&& exists|k: int| 0 <= k < g.players@.len() && (#[trigger] g.players@[k]).id@ == to
    &&& from != to
}

/// A shake declares three or four distinct cards of one month, all held in `hand`.
pub open spec fn shake_allowed(hand: Seq<Card>, cards: Seq<Card>) -> bool {
    &&& cards.len() == 3 || cards.len() == 4
    &&& forall|k: int| 0 <= k < cards.len() ==> hand.contains(#[trigger] cards[k])
    &&& forall|k: int| 0 <= k < cards.len() ==> same_month(#[trigger] cards[k], cards[0])
    &&& forall|k: int, m: int| 0 <= m < k < cards.len() ==> cards[m] != cards[k]
}

/// Some player has reached the Go/Stop threshold (with a score that fits in `u32`).
pub open spec fn someone_reached(ps: Seq<Player>) -> bool {
    exists|k: int|
        0 <= k < ps.len() && score_fits(#[trigger] ps[k]) && base_score(ps[k].captured)
            >= GO_STOP_THRESHOLD
}

/// What a no-winner round demands: the deck is exhausted and nobody reached the threshold.
pub open spec fn nagari_allowed(g: Game) -> bool {
    &&& g.game_phase == GamePhase::Scoring
    &&& g.deck@.len() == 0
    &&& g.nagari_count < 255
    &&& !someone_reached(g.players@)
}

/// What a successful `StartGame` demands of the game it is applied to.
pub open spec fn start_allowed(g: Game, player_count: u8) -> bool {
    &&& g.game_phase == GamePhase::Waiting
    &&& 2 <= player_count <= 6
    &&& player_count == g.players@.len()
}

impl Game {
    /// The current player shakes: the declared cards are recorded (they stay in hand)
    /// and a shaking multiplier joins the log.
    fn declare_shaking(&mut self, cards: Vec<Card>) -> (r: ActionResult)
        requires
            old(self).wf(),
        ensures
            final(self).wf(),
            final(self).all_cards() == old(self).all_cards(),
            final(self).game_phase == old(self).game_phase,
            final(self).turn_phase == old(self).turn_phase,
            final(self).current_player_idx == old(self).current_player_idx,
            r is Success <==> shake_allowed(
                old(self).players@[old(self).current_player_idx as int].hand@,
                cards@,
            ),
            r is Invalid ==> *final(self) == *old(self),
            r is Success ==> {
                let i = old(self).current_player_idx as int;
                &&& final(self).players@[i].score.multipliers@ == old(self).players@[i].score.multipliers@.push(
                    ScoreMultiplier::Shaking(cards@.len() as u8),
                )
                &&& final(self).players@[i].shaking_cards@ == cards@
                &&& final(self).special_conditions@.len() == old(self).special_conditions@.len() + 1
                &&& final(self).special_conditions@.last().condition_type == SpecialConditionType::Shaking
            },
    {
        let i = self.current_player_idx;
        let n = cards.len();
        if n != 3 && n != 4 {
            return invalid("흔들기는 3장 또는 4장이어야 합니다");
        }
        let mut k: usize = 0;
        while k < n
            invariant
                n == cards@.len(),
                n == 3 || n == 4,
                k <= n,
                i == self.current_player_idx,
                self.wf(),
                *self == *old(self),
                forall|q: int| 0 <= q < k ==> self.players@[i as int].hand@.contains(#[trigger] cards@[q]),
                forall|q: int| 0 <= q < k ==> same_month(#[trigger] cards@[q], cards@[0]),
                forall|q: int, m: int| 0 <= m < q < k ==> cards@[m] != cards@[q],
            decreases n - k,
        {
            let c = cards[k];
            match find_card(&self.players[i].hand, c) {
                Some(_) => {},
                None => {
                    return invalid("shaking cards must be held in hand");
                },
            }
            if !c.matches_month(&cards[0]) {
                return invalid("shaking cards must share a month");
            }
            let mut m: usize = 0;
            while m < k
                invariant
                    k < n,
                    n == cards@.len(),
                    m <= k,
                    c == cards@[k as int],
                    *self == *old(self),
                    self.wf(),
                    forall|q: int| 0 <= q < m ==> cards@[q] != c,
                decreases k - m,
            {
                if cards[m] == c {
                    return invalid("shaking cards must be distinct");
                }
                m = m + 1;
            }
            k = k + 1;
        }
        let ghost g = *self;
        let ghost ps = self.players@;
        let mut p = self.players.remove(i);
        let ghost p0 = p;
        let recorded = copy_cards(&cards);
        p.score.multipliers.push(ScoreMultiplier::Shaking(n as u8));
        p.shaking_cards = cards;
        let pid = p.id.clone();
        self.players.insert(i, p);
        proof {
            assert(self.players@ =~= ps.update(i as int, p));
            assert(player_cards(p) == player_cards(p0));
            assert(player_cards(p).add(Multiset::empty()) =~= player_cards(p));
            assert(player_cards(p0).add(Multiset::empty()) =~= player_cards(p0));
            lemma_swap_player(ps, i as int, p, Multiset::empty(), Multiset::empty());
            assert(players_cards(self.players@).add(Multiset::empty()) =~= players_cards(self.players@));
            assert(players_cards(ps).add(Multiset::empty()) =~= players_cards(ps));
            assert(self.all_cards() =~= g.all_cards());
        }
        let shown = copy_cards(&recorded);
        self.special_conditions.push(
            SpecialCondition {
                condition_type: SpecialConditionType::Shaking,
                player_id: pid.clone(),
                cards: recorded,
            },
        );
        ActionResult::Success {
            next_action: None,
            state_change: StateChange::CardsMoved {
                from: Location::PlayerHand(pid.clone()),
                to: Location::PlayerHand(pid),
                cards: shown,
            },
        }
    }

    /// Whether some player has reached the Go/Stop threshold.
    fn any_reached(&self) -> (r: bool)
        ensures
            r == someone_reached(self.players@),
    {
        let mut k: usize = 0;
        while k < self.players.len()
            invariant
                k <= self.players@.len(),
                forall|j: int|
                    0 <= j < k ==> !(score_fits(#[trigger] self.players@[j]) && base_score(
                        self.players@[j].captured,
                    ) >= GO_STOP_THRESHOLD),
            decreases self.players@.len() - k,
        {
            if self.players[k].score_in_range() && self.players[k].has_go_stop_decision() {
                return true;
            }
            k = k + 1;
        }
        false
    }

    /// Moves every card of the player at `j`, in hand or captured, onto the deck.
    fn collect_player(&mut self, j: usize)
        requires
            j < old(self).players@.len(),
        ensures
            final(self).all_cards() == old(self).all_cards(),
            final(self).players@.len() == old(self).players@.len(),
            player_cards(final(self).players@[j as int]) == Multiset::<Card>::empty(),
            forall|k: int|
                0 <= k < old(self).players@.len() && k != j ==> final(self).players@[k]
                    == old(self).players@[k],
            final(self).field == old(self).field,
            final(self).game_phase == old(self).game_phase,
            final(self).current_player_idx == old(self).current_player_idx,
            final(self).nagari_count == old(self).nagari_count,
    {
        broadcast use vstd::seq_lib::group_to_multiset_ensures;

        let ghost g = *self;
        let ghost ps = self.players@;
        let mut p = self.players.remove(j);
        let ghost p0 = p;
        self.deck.append(&mut p.hand);
        self.deck.append(&mut p.captured.gwang);
        self.deck.append(&mut p.captured.yeol);
        self.deck.append(&mut p.captured.meong);
        self.deck.append(&mut p.captured.pi);
        self.players.insert(j, p);
        proof {
            let d = g.deck@;
            let (h, a, b, c, e) = (
                p0.hand@,
                p0.captured.gwang@,
                p0.captured.yeol@,
                p0.captured.meong@,
                p0.captured.pi@,
            );
            assert(self.deck@ =~= d + h + a + b + c + e);
            vstd::seq_lib::lemma_multiset_commutative(d, h);
            vstd::seq_lib::lemma_multiset_commutative(d + h, a);
            vstd::seq_lib::lemma_multiset_commutative(d + h + a, b);
            vstd::seq_lib::lemma_multiset_commutative(d + h + a + b, c);
            vstd::seq_lib::lemma_multiset_commutative(d + h + a + b + c, e);
            let pc0 = player_cards(p0);
            assert(self.deck@.to_multiset() =~= d.to_multiset().add(pc0));
            let empty = Seq::<Card>::empty();
            assert(p.hand@ =~= empty);
            assert(p.captured.gwang@ =~= empty);
            assert(p.captured.yeol@ =~= empty);
            assert(p.captured.meong@ =~= empty);
            assert(p.captured.pi@ =~= empty);
            assert(empty.to_multiset() =~= Multiset::<Card>::empty());
            assert(player_cards(p) =~= Multiset::<Card>::empty());
            assert(player_cards(p).add(pc0) =~= pc0.add(Multiset::empty()));
            assert(self.players@ =~= ps.update(j as int, p));
            lemma_swap_player(ps, j as int, p, Multiset::empty(), pc0);
            assert forall|x: Card| #[trigger] self.all_cards().count(x) == g.all_cards().count(x) by {
                assert(players_cards(self.players@).add(pc0).count(x) == players_cards(ps).add(
                    Multiset::empty(),
                ).count(x));
            }
            assert(self.all_cards() =~= g.all_cards());
        }
    }

    /// Ends a round that nobody won: every card goes back onto the deck, the count
    /// of consecutive no-winner rounds grows, and dealing starts again.
    fn handle_nagari(&mut self) -> (r: ActionResult)
        requires
            old(self).wf(),
        ensures
            final(self).wf(),
            final(self).all_cards() == old(self).all_cards(),
            r is Success <==> nagari_allowed(*old(self)),
            r is Invalid ==> *final(self) == *old(self),
            r is Success ==> {
                &&& final(self).game_phase == GamePhase::Dealing
                &&& final(self).nagari_count == old(self).nagari_count + 1
                &&& final(self).field@.len() == 0
                &&& final(self).players@.len() == old(self).players@.len()
                &&& forall|k: int|
                    0 <= k < final(self).players@.len() ==> player_cards(#[trigger] final(self).players@[k])
                        == Multiset::<Card>::empty()
            },
    {
        broadcast use vstd::seq_lib::group_to_multiset_ensures;

        if self.game_phase != GamePhase::Scoring || self.deck.len() != 0 || self.nagari_count == 255
            || self.any_reached() {
            return invalid("action not allowed in this phase");
        }
        let ghost g = *self;
        let n = self.players.len();
        let mut j: usize = 0;
        while j < n
            invariant
                n == self.players@.len(),
                j <= n,
                self.all_cards() == g.all_cards(),
                self.field == g.field,
                self.game_phase == g.game_phase,
                self.current_player_idx == g.current_player_idx,
                self.nagari_count == g.nagari_count,
                forall|k: int| 0 <= k < j ==> player_cards(#[trigger] self.players@[k]) == Multiset::<
                    Card,
                >::empty(),
            decreases n - j,
        {
            self.collect_player(j);
            j = j + 1;
        }
        let ghost before = *self;
        let mut field = Vec::new();
        std::mem::swap(&mut field, &mut self.field);
        self.deck.append(&mut field);
        proof {
            vstd::seq_lib::lemma_multiset_commutative(before.deck@, before.field@);
            assert(self.field@.to_multiset() =~= Multiset::<Card>::empty());
            assert(self.all_cards() =~= before.all_cards());
        }
        self.nagari_count = self.nagari_count + 1;
        self.game_phase = GamePhase::Dealing;
        self.turn_phase = TurnPhase::PlayingCard;
        self.bare_play = None;
        if self.current_round < 255 {
            self.current_round = self.current_round + 1;
        }
        ActionResult::Success {
            next_action: None,
            state_change: StateChange::CardsMoved { from: Location::Field, to: Location::Deck, cards: Vec::new() },
        }
    }

    /// Logs a ssaki against `player_id`: the field cards of `month` that the player's
    /// forced discard left to be swept.
    fn perform_ssaki(&mut self, player_id: &String, month: u8) -> (r: ActionResult)
        requires
            old(self).wf(),
        ensures
            final(self).wf(),
            final(self).all_cards() == old(self).all_cards(),
            r is Success <==> old(self).game_phase == GamePhase::Playing && 1 <= month <= 12
                && exists|k: int|
                0 <= k < old(self).players@.len() && (#[trigger] old(self).players@[k]).id@
                    == player_id@,
            r is Invalid ==> *final(self) == *old(self),
            r is Success ==> {
                &&& final(self).special_conditions@.len() == old(self).special_conditions@.len() + 1
                &&& final(self).special_conditions@.last().condition_type == SpecialConditionType::Ssaki
                &&& final(self).special_conditions@.last().player_id@ == player_id@
                &&& final(self).special_conditions@.last().cards@ == old(self).field@.filter(
                    in_month(month),
                )
                &&& final(self).players == old(self).players
            },
    {
        if self.game_phase != GamePhase::Playing || month < 1 || month > 12 {
            return invalid("action not allowed in this phase");
        }
        match self.find_player(player_id) {
            None => {
                return invalid("unknown player");
            },
            Some(_) => {},
        }
        let cards = month_cards(&self.field, month);
        self.special_conditions.push(
            SpecialCondition {
                condition_type: SpecialConditionType::Ssaki,
                player_id: player_id.clone(),
                cards,
            },
        );
        let shown = month_cards(&self.field, month);
        ActionResult::Success {
            next_action: None,
            state_change: StateChange::CardsMoved { from: Location::Field, to: Location::Field, cards: shown },
        }
    }

    /// `None` where a turn action by `player_id` is legal now, else why it is not.
    fn turn_check(&self, player_id: &String, turn: TurnPhase) -> (r: Option<ActionResult>)
        requires
            self.wf(),
        ensures
            r is None <==> self.game_phase == GamePhase::Playing && player_id@ == self.current_id()
                && self.turn_phase == turn,
            r matches Some(x) ==> x matches ActionResult::Invalid { reason } && reason@ == if self.game_phase
                == GamePhase::Playing && player_id@ != self.current_id() {
                msg_not_turn()
            } else {
                msg_phase()
            },
    {
        if self.game_phase != GamePhase::Playing {
            return Some(invalid("action not allowed in this phase"));
        }
        if !self.is_current(player_id) {
            return Some(invalid("not current player's turn"));
        }
        if self.turn_phase != turn {
            return Some(invalid("action not allowed in this phase"));
        }
        None
    }

    /// Applies one action to the game: checks that it is legal in the current game
    /// phase, turn phase and for the acting player, then carries it out.
    pub fn apply(&mut self, action: Action) -> (r: ActionResult)
        requires
            old(self).wf(),
        ensures
            final(self).wf(),
            final(self).all_cards() == old(self).all_cards(),
            old(self).holds_catalog() ==> final(self).holds_catalog(),
            old(self).game_phase == GamePhase::Ended ==> *final(self) == *old(self) && (r matches ActionResult::Invalid {
                reason,
            } && reason@ == msg_ended()),
            actor(action) matches Some(id) ==> (old(self).game_phase == GamePhase::Playing && id@
                != old(self).current_id() ==> *final(self) == *old(self) && (r matches ActionResult::Invalid {
                reason,
            } && reason@ == msg_not_turn())),
            turn_of(action) matches Some(t) ==> (old(self).game_phase != GamePhase::Playing
                || old(self).turn_phase != t ==> *final(self) == *old(self) && r is Invalid),
            action matches Action::StartGame { player_count } ==> (r is Success <==> start_allowed(
                *old(self),
                player_count,
            )),
            action matches Action::StartGame { player_count } ==> (old(self).game_phase
                == GamePhase::Waiting && 2 <= player_count <= 6 && player_count != old(self).players@.len()
                ==> (r matches ActionResult::Invalid { reason } && reason@ == msg_table_size())),
            (action is HandlePpuk || action is HandleDdadak || action is HandleJjok || action is HandleSseul
                || action is SellGwang) && old(self).game_phase != GamePhase::Ended ==> (r matches ActionResult::Invalid {
                reason,
            } && reason@ == msg_not_handled()),
            action is StartGame && r is Success ==> final(self).game_phase == GamePhase::Starting
                && final(self).players == old(self).players,
            action matches Action::StartGame { player_count } ==> (old(self).game_phase
                == GamePhase::Waiting && !(2 <= player_count <= 6) ==> (r matches ActionResult::Invalid {
                reason,
            } && reason@ == crate::actions::invalid_player_count_msg())),
            action matches Action::PlayCard { card, player_id } ==> (old(self).game_phase
                == GamePhase::Playing && old(self).turn_phase == TurnPhase::PlayingCard && player_id@
                == old(self).current_id() ==> (r is Success <==> old(self).players@[old(self).current_player_idx as int].hand@.contains(card))),
            action matches Action::PlayCard { card, .. } ==> (r is Success ==> play_resolved(
                *old(self),
                card,
                *final(self),
                r,
            )),
            action is DrawFromDeck && r is Success && old(self).deck@.len() > 0 ==> draw_resolved(
                *old(self),
                old(self).deck@.last(),
                *final(self),
                r,
            ),
            action is DrawFromDeck && r is Success && old(self).deck@.len() == 0 ==> final(self).game_phase == GamePhase::Scoring,
            action is DeclareStop && r is Success ==> final(self).game_phase == GamePhase::Scoring,
            action matches Action::DrawFromDeck { player_id } ==> (old(self).game_phase
                == GamePhase::Playing && old(self).turn_phase == TurnPhase::DrawingCard && player_id@
                == old(self).current_id() ==> r is Success),
            action matches Action::TakeMatchedCards { player_id, .. } ==> (old(self).game_phase
                == GamePhase::Playing && old(self).turn_phase == TurnPhase::TakingCards && player_id@
                == old(self).current_id() ==> (r is Success <==> score_fits(
                old(self).players@[old(self).current_player_idx as int],
            ))),
            action matches Action::DeclareGo { player_id } ==> (old(self).game_phase
                == GamePhase::Playing && old(self).turn_phase == TurnPhase::DecidingGoStop && player_id@
                == old(self).current_id() ==> (r is Success <==> old(self).players@[old(self).current_player_idx as int].score.go_count
                < 255)),
            action matches Action::DeclareStop { player_id } ==> (old(self).game_phase
                == GamePhase::Playing && old(self).turn_phase == TurnPhase::DecidingGoStop && player_id@
                == old(self).current_id() ==> (r is Success <==> scores_fit(
                old(self).players@[old(self).current_player_idx as int].captured,
                stop_log(*old(self)),
            ))),
            action matches Action::EndTurn { player_id } ==> (old(self).game_phase
                == GamePhase::Playing && player_id@ == old(self).current_id() ==> r is Success),
            action matches Action::TransferPi { from_player_id, to_player_id, .. } ==> (
            old(self).game_phase != GamePhase::Ended ==> (r is Success <==> (old(self).game_phase
                == GamePhase::Playing || old(self).game_phase == GamePhase::Scoring)
                && transfer_allowed(*old(self), from_player_id@, to_player_id@))),
            action matches Action::PerformSsaki { player_id, month } ==> (old(self).game_phase
                != GamePhase::Ended ==> (r is Success <==> old(self).game_phase == GamePhase::Playing
                && 1 <= month <= 12 && exists|k: int|
                0 <= k < old(self).players@.len() && (#[trigger] old(self).players@[k]).id@
                    == player_id@)),
            action is TakeMatchedCards && r is Success ==> refreshed(
                old(self).players@[old(self).current_player_idx as int],
                final(self).players@[old(self).current_player_idx as int],
            ),
            action is DeclareGo && r is Success ==> final(self).players@[old(self).current_player_idx as int].score.go_count
                == old(self).players@[old(self).current_player_idx as int].score.go_count + 1
                && final(self).go_history@.len() == old(self).go_history@.len() + 1,
            (action is DeclareGo || action is EndTurn) && r is Success ==> final(self).current_player_idx
                == (old(self).current_player_idx + 1) % (old(self).players@.len() as int)
                && final(self).turn_phase == TurnPhase::PlayingCard,
            action matches Action::DeclareShaking { player_id, cards } ==> (old(self).game_phase
                == GamePhase::Playing && old(self).turn_phase == TurnPhase::PlayingCard && player_id@
                == old(self).current_id() ==> (r is Success <==> shake_allowed(
                old(self).players@[old(self).current_player_idx as int].hand@,
                cards@,
            ))),
            action matches Action::DeclareShaking { cards, .. } ==> (r is Success ==> final(self).players@[old(self).current_player_idx as int].score.multipliers@
                == old(self).players@[old(self).current_player_idx as int].score.multipliers@.push(
                ScoreMultiplier::Shaking(cards@.len() as u8),
            )),
            action is HandleNagari && old(self).game_phase != GamePhase::Ended ==> (r is Success
                <==> nagari_allowed(*old(self))),
            action is HandleNagari && r is Success ==> final(self).game_phase == GamePhase::Dealing
                && final(self).nagari_count == old(self).nagari_count + 1,
            action matches Action::EndGame { winner_id, .. } ==> (old(self).game_phase
                != GamePhase::Ended ==> final(self).game_phase == GamePhase::Ended && (r matches ActionResult::Success {
                state_change: StateChange::GameEnded { winner_id: w },
                next_action: None,
            } && w@ == winner_id@)),
            r matches ActionResult::Invalid { reason } ==> (reason@ != msg_score_range() ==> *final(self)
                == *old(self)),
    {
        if self.game_phase == GamePhase::Ended {
            return invalid("game has ended");
        }
        match action {
            Action::StartGame { player_count } => {
                if self.game_phase != GamePhase::Waiting {
                    return invalid("action not allowed in this phase");
                }
                if player_count < 2 || player_count > 6 {
                    return invalid("플레이어 수는 2~6명이어야 합니다");
                }
                if player_count as usize != self.players.len() {
                    return invalid("player count does not match the table");
                }
                self.game_phase = GamePhase::Starting;
                let first = self.players[self.current_player_idx].id.clone();
                ActionResult::Success {
                    next_action: None,
                    state_change: StateChange::TurnChanged { new_player_id: first },
                }
            },
            Action::PlayCard { player_id, card } => {
                match self.turn_check(&player_id, TurnPhase::PlayingCard) {
                    Some(x) => x,
                    None => self.play_card(card),
                }
            },
            Action::DrawFromDeck { player_id } => {
                match self.turn_check(&player_id, TurnPhase::DrawingCard) {
                    Some(x) => x,
                    None => self.draw_card(),
                }
            },
            Action::TakeMatchedCards { player_id, .. } => {
                match self.turn_check(&player_id, TurnPhase::TakingCards) {
                    Some(x) => x,
                    None => self.take_cards(),
                }
            },
            Action::DeclareShaking { player_id, cards } => {
                match self.turn_check(&player_id, TurnPhase::PlayingCard) {
                    Some(x) => x,
                    None => self.declare_shaking(cards),
                }
            },
            Action::DeclareGo { player_id } => {
                match self.turn_check(&player_id, TurnPhase::DecidingGoStop) {
                    Some(x) => x,
                    None => self.declare_go(),
                }
            },
            Action::DeclareStop { player_id } => {
                match self.turn_check(&player_id, TurnPhase::DecidingGoStop) {
                    Some(x) => x,
                    None => self.declare_stop(),
                }
            },
            Action::EndTurn { player_id } => {
                if self.game_phase != GamePhase::Playing {
                    return invalid("action not allowed in this phase");
                }
                if !self.is_current(&player_id) {
                    return invalid("not current player's turn");
                }
                self.advance()
            },
            Action::TransferPi { from_player_id, to_player_id, count } => {
                if self.game_phase != GamePhase::Playing && self.game_phase != GamePhase::Scoring {
                    return invalid("action not allowed in this phase");
                }
                self.transfer_pi(&from_player_id, &to_player_id, count)
            },
            Action::EndGame { winner_id, .. } => {
                self.game_phase = GamePhase::Ended;
                ActionResult::Success {
                    next_action: None,
                    state_change: StateChange::GameEnded { winner_id },
                }
            },
            Action::HandleNagari => self.handle_nagari(),
            Action::PerformSsaki { player_id, month } => self.perform_ssaki(&player_id, month),
            _ => invalid("action is not handled by the engine"),
        }
    }
}

} // verus!
