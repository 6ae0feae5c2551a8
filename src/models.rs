use vstd::prelude::*;
use vstd::multiset::Multiset;
use vstd::string::*;

use crate::cards::{bucket_of, is_double_pi_card, Bucket, Card};
use crate::game_state::{GamePhase, SpecialCondition, TurnPhase};

verus! {

/// Bound on a player's captured cards under which every score fits in `u32`.
pub const MAX_CAPTURED: usize = 0x7fff_0000;

/// The cards a player has captured, one bucket per category.
#[derive(Debug, Clone)]
pub struct CapturedCards {
    pub gwang: Vec<Card>,
    pub yeol: Vec<Card>,
    pub meong: Vec<Card>,
    pub pi: Vec<Card>,
}

/// A player's scoring record.
#[derive(Debug, Clone)]
pub struct Score {
    pub base_score: u32,
    pub go_count: u8,
    /// Append-only log of multiplier events, kept in order.
    pub multipliers: Vec<ScoreMultiplier>,
    /// Derived from `multipliers` by `update_final_score`.
    pub total_multiplier: u32,
    /// Derived: `base_score * total_multiplier`.
    pub final_score: u32,
}

#[derive(Debug, Clone, Copy, PartialEq, Eq, Structural)]
pub enum ScoreMultiplier {
    Go(u8),
    PiBak,
    GwangBak,
    MeongBak,
    Shaking(u8),
    Ssaki,
    Nagari(u8),
    OneShot,
}

/// One Go declaration, with the score at the moment it was declared.
#[derive(Debug, Clone)]
pub struct GoHistory {
    pub player_id: String,
    pub round: u8,
    pub score_at_go: u32,
}

#[derive(Debug, Clone)]
pub struct Player {
    pub id: String,
    pub name: String,
    pub hand: Vec<Card>,
    pub captured: CapturedCards,
    pub score: Score,
    /// Cards declared as a shake; they stay in `hand` until played.
    pub shaking_cards: Vec<Card>,
    pub ppuk_count: u8,
    /// Enables the one-shot bonus check.
    pub is_first_turn: bool,
}

// ---------------------------------------------------------------------------
// The scoring model
// ---------------------------------------------------------------------------

/// How much a captured pi-bucket card counts toward the pi total.
pub open spec fn pi_value(c: Card) -> nat {
    if is_double_pi_card(c) {
        2
    } else {
        1
    }
}

/// The pi total of a pi bucket, double-pi cards counting as two.
pub open spec fn pi_count(s: Seq<Card>) -> nat
    decreases s.len(),
{
    if s.len() == 0 {
        0
    } else {
        pi_count(s.drop_last()) + pi_value(s.last())
    }
}

/// Points for a count beyond a free allowance: `max(0, n - free)`.
pub open spec fn excess(n: nat, free: nat) -> nat {
    if n > free {
        (n - free) as nat
    } else {
        0
    }
}

/// Points for the number of brights captured.
pub open spec fn gwang_points(n: nat) -> nat {
    if n == 5 {
        15
    } else if n == 4 {
        4
    } else if n == 3 {
        3
    } else {
        0
    }
}

pub open spec fn contains_all(s: Seq<Card>, a: Card, b: Card, c: Card) -> bool {
    s.contains(a) && s.contains(b) && s.contains(c)
}

pub open spec fn spec_has_hongdan(c: CapturedCards) -> bool {
    contains_all(c.yeol@, Card::SonghakHongdan, Card::MaejouHongdan, Card::SakuraHongdan)
}

pub open spec fn spec_has_cheongdan(c: CapturedCards) -> bool {
    contains_all(
        c.yeol@,
        Card::PeonyCheongdan,
        Card::ChrysanthemumCheongdan,
        Card::MapleCheongdan,
    )
}

pub open spec fn spec_has_chodan(c: CapturedCards) -> bool {
    contains_all(c.yeol@, Card::DeungnamuChodan, Card::IrisChodan, Card::SariChodan)
}

pub open spec fn spec_has_godori(c: CapturedCards) -> bool {
    contains_all(c.meong@, Card::MaejouWhistlingBird, Card::DeungnamuCuckoo, Card::EoksaeGoose)
}

/// Hongdan, cheongdan and chodan are worth 3 each, godori 5.
pub open spec fn combination_points(c: CapturedCards) -> nat {
    (if spec_has_hongdan(c) { 3nat } else { 0nat }) + (if spec_has_cheongdan(c) {
        3nat
    } else {
        0nat
    }) + (if spec_has_chodan(c) { 3nat } else { 0nat }) + (if spec_has_godori(c) {
        5nat
    } else {
        0nat
    })
}

/// The base score of a set of captured cards.
pub open spec fn base_score(c: CapturedCards) -> nat {
    excess(pi_count(c.pi@), 9) + excess(c.yeol@.len(), 4) + excess(c.meong@.len(), 4)
        + gwang_points(c.gwang@.len()) + combination_points(c)
}

pub open spec fn pow2(n: nat) -> nat
    decreases n,
{
    if n == 0 {
        1
    } else {
        2 * pow2((n - 1) as nat)
    }
}

/// The factor one multiplier event contributes.
pub open spec fn factor(m: ScoreMultiplier) -> nat {
    match m {
        ScoreMultiplier::Go(n) => if n >= 3 {
            pow2((n - 2) as nat)
        } else {
            1
        },
        ScoreMultiplier::PiBak | ScoreMultiplier::GwangBak | ScoreMultiplier::MeongBak
        | ScoreMultiplier::Ssaki | ScoreMultiplier::OneShot => 2,
        ScoreMultiplier::Shaking(n) => if n == 3 {
            2
        } else if n == 4 {
            4
        } else {
            1
        },
        ScoreMultiplier::Nagari(n) => pow2(n as nat),
    }
}

/// The product of the factors of a multiplier log, starting from 1.
pub open spec fn total_multiplier(s: Seq<ScoreMultiplier>) -> nat
    decreases s.len(),
{
    if s.len() == 0 {
        1
    } else {
        total_multiplier(s.drop_last()) * factor(s.last())
    }
}

pub proof fn lemma_pow2_positive(n: nat)
    ensures
        pow2(n) >= 1,
    decreases n,
{
    if n > 0 {
        lemma_pow2_positive((n - 1) as nat);
    }
}

pub proof fn lemma_factor_positive(m: ScoreMultiplier)
    ensures
        factor(m) >= 1,
{
    match m {
        ScoreMultiplier::Go(n) => if n >= 3 {
            lemma_pow2_positive((n - 2) as nat);
        },
        ScoreMultiplier::Nagari(n) => lemma_pow2_positive(n as nat),
        _ => {},
    }
}

pub proof fn lemma_total_positive(s: Seq<ScoreMultiplier>)
    ensures
        total_multiplier(s) >= 1,
    decreases s.len(),
{
    if s.len() > 0 {
        lemma_total_positive(s.drop_last());
        lemma_factor_positive(s.last());
        lemma_mul_ge_one(total_multiplier(s.drop_last()), factor(s.last()));
    }
}

/// A longer prefix of a multiplier log never has a smaller product.
pub proof fn lemma_total_monotone(s: Seq<ScoreMultiplier>, i: int, j: int)
    requires
        0 <= i <= j <= s.len(),
    ensures
        1 <= total_multiplier(s.take(i)) <= total_multiplier(s.take(j)),
    decreases j,
{
    if i == j {
        lemma_total_positive(s.take(i));
    } else {
        lemma_total_monotone(s, i, j - 1);
        assert(s.take(j).drop_last() =~= s.take(j - 1));
        lemma_factor_positive(s[j - 1]);
        lemma_mul_ge_one(total_multiplier(s.take(j - 1)), factor(s[j - 1]));
    }
}

proof fn lemma_mul_ge_one(a: nat, b: nat)
    requires
        a >= 1,
        b >= 1,
    ensures
        a * b >= a,
        a * b >= 1,
{
    assert(a * b >= a * 1) by (nonlinear_arith)
        requires
            b >= 1,
            a >= 1,
    ;
}

proof fn lemma_pow2_monotone(i: nat, j: nat)
    requires
        i <= j,
    ensures
        1 <= pow2(i) <= pow2(j),
    decreases j,
{
    if i < j {
        lemma_pow2_monotone(i, (j - 1) as nat);
    } else {
        lemma_pow2_positive(i);
    }
}

proof fn lemma_pi_count_bound(s: Seq<Card>)
    ensures
        s.len() <= pi_count(s) <= 2 * s.len(),
    decreases s.len(),
{
    if s.len() > 0 {
        lemma_pi_count_bound(s.drop_last());
    }
}

/// `acc` doubled `n` times, or `None` where that leaves `u32`.
fn times_pow2(acc: u32, n: u8) -> (r: Option<u32>)
    ensures
        match r {
            Some(x) => x == acc * pow2(n as nat),
            None => acc * pow2(n as nat) > u32::MAX,
        },
{
    let mut cur: u32 = acc;
    let mut i: u8 = 0;
    assert(acc * pow2(0) == acc) by {
        assert(pow2(0) == 1);
    }
    while i < n
        invariant
            i <= n,
            cur == acc * pow2(i as nat),
        decreases n - i,
    {
        match cur.checked_mul(2) {
            Some(v) => {
                cur = v;
            },
            None => {
                proof {
                    lemma_pow2_monotone((i + 1) as nat, n as nat);
                    assert(acc * pow2((i + 1) as nat) <= acc * pow2(n as nat)) by (nonlinear_arith)
                        requires
                            pow2((i + 1) as nat) <= pow2(n as nat),
                    ;
                    assert(acc * pow2((i + 1) as nat) == cur * 2) by (nonlinear_arith)
                        requires
                            cur == acc * pow2(i as nat),
                            pow2((i + 1) as nat) == 2 * pow2(i as nat),
                    ;
                }
                return None;
            },
        }
        proof {
            assert(acc * pow2((i + 1) as nat) == cur) by (nonlinear_arith)
                requires
                    cur == 2 * (acc * pow2(i as nat)),
                    pow2((i + 1) as nat) == 2 * pow2(i as nat),
            ;
        }
        i = i + 1;
    }
    Some(cur)
}

/// Whether `v` holds `c`.
fn holds(v: &Vec<Card>, c: Card) -> (r: bool)
    ensures
        r == v@.contains(c),
{
    let mut i: usize = 0;
    while i < v.len()
        invariant
            i <= v@.len(),
            forall|k: int| 0 <= k < i ==> v@[k] != c,
        decreases v@.len() - i,
    {
        if v[i] == c {
            return true;
        }
        i = i + 1;
    }
    false
}

/// Under this bound the base score, the multiplier and their product fit in `u32`.
pub open spec fn score_fits(p: Player) -> bool {
    scores_fit(p.captured, p.score.multipliers@)
}

/// Under this bound the base score of `c`, the product of `ms` and their product fit in `u32`.
pub open spec fn scores_fit(c: CapturedCards, ms: Seq<ScoreMultiplier>) -> bool {
    &&& c.len_sum() <= MAX_CAPTURED
    &&& total_multiplier(ms) <= u32::MAX
    &&& base_score(c) * total_multiplier(ms) <= u32::MAX
}

/// `after` is `before` with its derived score fields recomputed, and nothing else changed.
pub open spec fn refreshed(before: Player, after: Player) -> bool {
    &&& after.score.base_score == base_score(before.captured)
    &&& after.score.total_multiplier == total_multiplier(before.score.multipliers@)
    &&& after.score.final_score == after.score.base_score * after.score.total_multiplier
    &&& after.score.multipliers == before.score.multipliers
    &&& after.score.go_count == before.score.go_count
    &&& after.id == before.id
    &&& after.name == before.name
    &&& after.hand == before.hand
    &&& after.captured == before.captured
    &&& after.shaking_cards == before.shaking_cards
    &&& after.ppuk_count == before.ppuk_count
    &&& after.is_first_turn == before.is_first_turn
}

/// Recomputing the derived score a second time, with nothing changed in between,
/// yields the same final score (indeed the same player).
pub proof fn lemma_update_final_score_idempotent(p: Player, q: Player, r: Player)
    requires
        refreshed(p, q),
        refreshed(q, r),
    ensures
        r.score.final_score == q.score.final_score,
        r == q,
{
    assert(r.score == q.score);
}

/// Bright points depend only on how many brights were captured, not on which ones
/// (in particular not on whether the rain bright is among them).
pub proof fn lemma_gwang_points_by_count(a: CapturedCards, b: CapturedCards)
    requires
        a.gwang@.len() == b.gwang@.len(),
        a.yeol@ == b.yeol@,
        a.meong@ == b.meong@,
        a.pi@ == b.pi@,
    ensures
        base_score(a) == base_score(b),
{
}

/// The score from which a player is offered the choice between Go and Stop.
/// Two-player variants often use 7 instead.
pub const GO_STOP_THRESHOLD: u32 = 3;

impl CapturedCards {
    /// All captured cards, whatever their bucket.
    pub open spec fn cards(self) -> Multiset<Card> {
        self.gwang@.to_multiset().add(self.yeol@.to_multiset()).add(
            self.meong@.to_multiset(),
        ).add(self.pi@.to_multiset())
    }

    pub open spec fn len_sum(self) -> nat {
        self.gwang@.len() + self.yeol@.len() + self.meong@.len() + self.pi@.len()
    }

    /// Every card lies in the bucket of its category.
    pub open spec fn sorted(self) -> bool {
        &&& forall|i: int| 0 <= i < self.gwang@.len() ==> bucket_of(#[trigger] self.gwang@[i]) == Bucket::Gwang
        &&& forall|i: int| 0 <= i < self.yeol@.len() ==> bucket_of(#[trigger] self.yeol@[i]) == Bucket::Yeol
        &&& forall|i: int| 0 <= i < self.meong@.len() ==> bucket_of(#[trigger] self.meong@[i]) == Bucket::Meong
        &&& forall|i: int| 0 <= i < self.pi@.len() ==> bucket_of(#[trigger] self.pi@[i]) == Bucket::Pi
    }

    pub fn new() -> (r: Self)
        ensures
            r.gwang@ == Seq::<Card>::empty(),
            r.yeol@ == Seq::<Card>::empty(),
            r.meong@ == Seq::<Card>::empty(),
            r.pi@ == Seq::<Card>::empty(),
    {
        CapturedCards { gwang: Vec::new(), yeol: Vec::new(), meong: Vec::new(), pi: Vec::new() }
    }

    /// Places a captured card in the bucket of its category.
    pub fn add_card(&mut self, card: Card)
        ensures
            final(self).gwang@ == if bucket_of(card) == Bucket::Gwang {
                old(self).gwang@.push(card)
            } else {
                old(self).gwang@
            },
            final(self).yeol@ == if bucket_of(card) == Bucket::Yeol {
                old(self).yeol@.push(card)
            } else {
                old(self).yeol@
            },
            final(self).meong@ == if bucket_of(card) == Bucket::Meong {
                old(self).meong@.push(card)
            } else {
                old(self).meong@
            },
            final(self).pi@ == if bucket_of(card) == Bucket::Pi {
                old(self).pi@.push(card)
            } else {
                old(self).pi@
            },
            final(self).cards() == old(self).cards().insert(card),
            final(self).len_sum() == old(self).len_sum() + 1,
            old(self).sorted() ==> final(self).sorted(),
    {
        broadcast use vstd::seq_lib::group_to_multiset_ensures;

        match card.bucket() {
            Bucket::Gwang => self.gwang.push(card),
            Bucket::Yeol => self.yeol.push(card),
            Bucket::Meong => self.meong.push(card),
            Bucket::Pi => self.pi.push(card),
        }
        assert(self.cards() =~= old(self).cards().insert(card));
    }

    pub fn total_count(&self) -> (r: usize)
        requires
            self.len_sum() <= usize::MAX,
        ensures
            r == self.len_sum(),
    {
        self.gwang.len() + self.yeol.len() + self.meong.len() + self.pi.len()
    }
}

impl Default for CapturedCards {
    fn default() -> (r: Self)
        ensures
            r.gwang@ == Seq::<Card>::empty(),
            r.yeol@ == Seq::<Card>::empty(),
            r.meong@ == Seq::<Card>::empty(),
            r.pi@ == Seq::<Card>::empty(),
    {
        CapturedCards::new()
    }
}

impl Default for Score {
    fn default() -> (r: Self)
        ensures
            r.base_score == 0,
            r.go_count == 0,
            r.multipliers@ == Seq::<ScoreMultiplier>::empty(),
            r.total_multiplier == 0,
            r.final_score == 0,
    {
        Score::new()
    }
}

impl Score {
    pub fn new() -> (r: Self)
        ensures
            r.base_score == 0,
            r.go_count == 0,
            r.multipliers@ == Seq::<ScoreMultiplier>::empty(),
            r.total_multiplier == 0,
            r.final_score == 0,
    {
        Score { base_score: 0, go_count: 0, multipliers: Vec::new(), total_multiplier: 0, final_score: 0 }
    }
}

impl Player {
    pub fn new(id: String, name: String) -> (r: Self)
        ensures
            r.id == id,
            r.name == name,
            r.hand@ == Seq::<Card>::empty(),
            r.captured.len_sum() == 0,
            r.captured.cards() == Multiset::<Card>::empty(),
            r.score.multipliers@ == Seq::<ScoreMultiplier>::empty(),
            r.score.base_score == 0,
            r.score.total_multiplier == 0,
            r.score.final_score == 0,
            r.score.go_count == 0,
            r.shaking_cards@ == Seq::<Card>::empty(),
            r.ppuk_count == 0,
            r.is_first_turn,
    {
        let r = Player {
            id,
            name,
            hand: Vec::new(),
            captured: CapturedCards::new(),
            score: Score::new(),
            shaking_cards: Vec::new(),
            ppuk_count: 0,
            is_first_turn: true,
        };
        proof {
            broadcast use vstd::seq_lib::group_to_multiset_ensures;

            let e = Seq::<Card>::empty();
            assert(e.to_multiset().len() == 0);
            assert(e.to_multiset() =~= Multiset::<Card>::empty());
            assert(r.captured.gwang@ =~= e);
            assert(r.captured.cards() =~= Multiset::<Card>::empty());
        }
        r
    }

    /// The pi total of the pi bucket, double-pi cards counting as two.
    pub fn calculate_pi_count(&self) -> (r: usize)
        requires
            self.captured.pi@.len() <= MAX_CAPTURED,
        ensures
            r == pi_count(self.captured.pi@),
    {
        let ghost pi = self.captured.pi@;
        let mut total: usize = 0;
        let mut i: usize = 0;
        while i < self.captured.pi.len()
            invariant
                pi == self.captured.pi@,
                i <= pi.len(),
                pi.len() <= MAX_CAPTURED,
                total == pi_count(pi.take(i as int)),
            decreases pi.len() - i,
        {
            proof {
                assert(pi.take(i + 1).drop_last() =~= pi.take(i as int));
                lemma_pi_count_bound(pi.take(i as int));
            }
            if self.captured.pi[i].is_double_pi() {
                total = total + 2;
            } else {
                total = total + 1;
            }
            i = i + 1;
        }
        assert(pi.take(i as int) =~= pi);
        total
    }

    pub fn has_hongdan(&self) -> (r: bool)
        ensures
            r == spec_has_hongdan(self.captured),
    {
        holds(&self.captured.yeol, Card::SonghakHongdan) && holds(&self.captured.yeol, Card::MaejouHongdan)
            && holds(&self.captured.yeol, Card::SakuraHongdan)
    }

    pub fn has_cheongdan(&self) -> (r: bool)
        ensures
            r == spec_has_cheongdan(self.captured),
    {
        holds(&self.captured.yeol, Card::PeonyCheongdan) && holds(
            &self.captured.yeol,
            Card::ChrysanthemumCheongdan,
        ) && holds(&self.captured.yeol, Card::MapleCheongdan)
    }

    pub fn has_chodan(&self) -> (r: bool)
        ensures
            r == spec_has_chodan(self.captured),
    {
        holds(&self.captured.yeol, Card::DeungnamuChodan) && holds(&self.captured.yeol, Card::IrisChodan)
            && holds(&self.captured.yeol, Card::SariChodan)
    }

    pub fn has_godori(&self) -> (r: bool)
        ensures
            r == spec_has_godori(self.captured),
    {
        holds(&self.captured.meong, Card::MaejouWhistlingBird) && holds(
            &self.captured.meong,
            Card::DeungnamuCuckoo,
        ) && holds(&self.captured.meong, Card::EoksaeGoose)
    }

    /// Points for completed combinations.
    pub fn calculate_special_combinations(&self) -> (r: u32)
        ensures
            r == combination_points(self.captured),
    {
        let mut score: u32 = 0;
        if self.has_hongdan() {
            score = score + 3;
        }
        if self.has_cheongdan() {
            score = score + 3;
        }
        if self.has_chodan() {
            score = score + 3;
        }
        if self.has_godori() {
            score = score + 5;
        }
        score
    }

    /// The base score of the captured cards.
    ///
    /// Three brights score 3 and four score 4 whether or not the rain bright is
    /// among them; some rule variants tell those cases apart.
    pub fn calculate_base_score(&self) -> (r: u32)
        requires
            self.captured.len_sum() <= MAX_CAPTURED,
        ensures
            r == base_score(self.captured),
    {
        let mut score: u32 = 0;
        let pi = self.calculate_pi_count();
        proof {
            lemma_pi_count_bound(self.captured.pi@);
        }
        if pi >= 10 {
            score = (pi - 9) as u32;
        }
        let yeol_count = self.captured.yeol.len();
        if yeol_count >= 5 {
            score = score + (yeol_count - 4) as u32;
        }
        let meong_count = self.captured.meong.len();
        if meong_count >= 5 {
            score = score + (meong_count - 4) as u32;
        }
        let gwang_count = self.captured.gwang.len();
        if gwang_count == 5 {
            score = score + 15;
        } else if gwang_count == 4 {
            score = score + 4;
        } else if gwang_count == 3 {
            score = score + 3;
        }
        score = score + self.calculate_special_combinations();
        score
    }

    /// The product of the multiplier log, or `None` where it leaves `u32`.
    pub fn checked_total_multiplier(&self) -> (r: Option<u32>)
        ensures
            match r {
                Some(x) => x == total_multiplier(self.score.multipliers@),
                None => total_multiplier(self.score.multipliers@) > u32::MAX,
            },
    {
        let ghost ms = self.score.multipliers@;
        let mut acc: u32 = 1;
        let mut i: usize = 0;
        while i < self.score.multipliers.len()
            invariant
                ms == self.score.multipliers@,
                i <= ms.len(),
                acc == total_multiplier(ms.take(i as int)),
                ms.take(0) =~= Seq::<ScoreMultiplier>::empty(),
            decreases ms.len() - i,
        {
            let m = self.score.multipliers[i];
            proof {
                assert(ms.take(i + 1).drop_last() =~= ms.take(i as int));
                assert(ms.take(i + 1).last() == m);
                assert(total_multiplier(ms.take(i + 1)) == acc * factor(m));
            }
            let next = match m {
                ScoreMultiplier::Go(n) => if n >= 3 {
                    times_pow2(acc, n - 2)
                } else {
                    Some(acc)
                },
                ScoreMultiplier::PiBak | ScoreMultiplier::GwangBak | ScoreMultiplier::MeongBak
                | ScoreMultiplier::Ssaki | ScoreMultiplier::OneShot => acc.checked_mul(2),
                ScoreMultiplier::Shaking(n) => if n == 3 {
                    acc.checked_mul(2)
                } else if n == 4 {
                    acc.checked_mul(4)
                } else {
                    Some(acc)
                },
                ScoreMultiplier::Nagari(n) => times_pow2(acc, n),
            };
            match next {
                Some(v) => {
                    assert(v == acc * factor(m));
                    acc = v;
                },
                None => {
                    proof {
                        lemma_total_monotone(ms, i + 1, ms.len() as int);
                        assert(ms.take(ms.len() as int) =~= ms);
                    }
                    return None;
                },
            }
            i = i + 1;
        }
        assert(ms.take(i as int) =~= ms);
        Some(acc)
    }

    /// The product of the factors of the multiplier log.
    pub fn calculate_total_multiplier(&self) -> (r: u32)
        requires
            total_multiplier(self.score.multipliers@) <= u32::MAX,
        ensures
            r == total_multiplier(self.score.multipliers@),
    {
        match self.checked_total_multiplier() {
            Some(x) => x,
            None => 1,
        }
    }

    /// Whether the base score has reached the Go/Stop threshold.
    pub fn has_go_stop_decision(&self) -> (r: bool)
        requires
            self.captured.len_sum() <= MAX_CAPTURED,
        ensures
            r == (base_score(self.captured) >= GO_STOP_THRESHOLD),
    {
        self.calculate_base_score() >= GO_STOP_THRESHOLD
    }

    /// Whether the scores of this player fit in `u32`, so that `update_final_score` may run.
    pub fn score_in_range(&self) -> (r: bool)
        ensures
            r == score_fits(*self),
    {
        let g = self.captured.gwang.len();
        let y = self.captured.yeol.len();
        let m = self.captured.meong.len();
        let pi = self.captured.pi.len();
        if g > MAX_CAPTURED || y > MAX_CAPTURED - g || m > MAX_CAPTURED - g - y || pi > MAX_CAPTURED
            - g - y - m {
            return false;
        }
        let base = self.calculate_base_score();
        match self.checked_total_multiplier() {
            None => false,
            Some(total) => base.checked_mul(total).is_some(),
        }
    }

    /// Recomputes the base score, the total multiplier and the final score.
    pub fn update_final_score(&mut self)
        requires
            score_fits(*old(self)),
        ensures
            refreshed(*old(self), *final(self)),
    {
        let base = self.calculate_base_score();
        let total = self.calculate_total_multiplier();
        self.score.base_score = base;
        self.score.total_multiplier = total;
        self.score.final_score = base * total;
    }
}

/// The decimal digit `d` as text.
pub open spec fn digit_text(d: nat) -> Seq<char> {
    if d == 0 {
        "0"@
    } else if d == 1 {
        "1"@
    } else if d == 2 {
        "2"@
    } else if d == 3 {
        "3"@
    } else if d == 4 {
        "4"@
    } else if d == 5 {
        "5"@
    } else if d == 6 {
        "6"@
    } else if d == 7 {
        "7"@
    } else if d == 8 {
        "8"@
    } else {
        "9"@
    }
}

/// `n` written in decimal.
pub open spec fn decimal(n: nat) -> Seq<char>
    decreases n,
{
    if n < 10 {
        digit_text(n)
    } else {
        decimal(n / 10) + digit_text(n % 10)
    }
}

fn digit_str(d: u32) -> (r: &'static str)
    requires
        d < 10,
    ensures
        r@ == digit_text(d as nat),
{
    if d == 0 {
        "0"
    } else if d == 1 {
        "1"
    } else if d == 2 {
        "2"
    } else if d == 3 {
        "3"
    } else if d == 4 {
        "4"
    } else if d == 5 {
        "5"
    } else if d == 6 {
        "6"
    } else if d == 7 {
        "7"
    } else if d == 8 {
        "8"
    } else {
        "9"
    }
}

/// `n` written in decimal.
pub fn decimal_string(n: u32) -> (r: String)
    ensures
        r@ == decimal(n as nat),
    decreases n,
{
    if n < 10 {
        String::from_str(digit_str(n))
    } else {
        let mut s = decimal_string(n / 10);
        s.append(digit_str(n % 10));
        s
    }
}

/// The label of one multiplier event.
pub open spec fn multiplier_label(m: ScoreMultiplier) -> Seq<char> {
    match m {
        ScoreMultiplier::Go(n) => decimal(n as nat) + "고"@,
        ScoreMultiplier::PiBak => "피박"@,
        ScoreMultiplier::GwangBak => "광박"@,
        ScoreMultiplier::MeongBak => "멍박"@,
        ScoreMultiplier::Shaking(n) => "흔들기("@ + decimal(n as nat) + "장)"@,
        ScoreMultiplier::Ssaki => "싸기"@,
        ScoreMultiplier::Nagari(n) => "나가리×"@ + decimal(n as nat),
        ScoreMultiplier::OneShot => "원샷"@,
    }
}

/// The labels of a multiplier log, separated by ", ".
pub open spec fn joined_labels(s: Seq<ScoreMultiplier>) -> Seq<char>
    decreases s.len(),
{
    if s.len() == 0 {
        Seq::empty()
    } else if s.len() == 1 {
        multiplier_label(s[0])
    } else {
        joined_labels(s.drop_last()) + ", "@ + multiplier_label(s.last())
    }
}

/// The description of a multiplier log and its total.
pub open spec fn multiplier_info(s: Seq<ScoreMultiplier>, total: u32) -> Seq<char> {
    if s.len() == 0 {
        "배수 없음"@
    } else {
        joined_labels(s) + " (총 ×"@ + decimal(total as nat) + "배)"@
    }
}

fn multiplier_label_string(m: ScoreMultiplier) -> (r: String)
    ensures
        r@ == multiplier_label(m),
{
    match m {
        ScoreMultiplier::Go(n) => {
            let mut s = decimal_string(n as u32);
            s.append("고");
            s
        },
        ScoreMultiplier::PiBak => String::from_str("피박"),
        ScoreMultiplier::GwangBak => String::from_str("광박"),
        ScoreMultiplier::MeongBak => String::from_str("멍박"),
        ScoreMultiplier::Shaking(n) => {
            let mut s = String::from_str("흔들기(");
            let d = decimal_string(n as u32);
            s.append(d.as_str());
            s.append("장)");
            s
        },
        ScoreMultiplier::Ssaki => String::from_str("싸기"),
        ScoreMultiplier::Nagari(n) => {
            let mut s = String::from_str("나가리×");
            let d = decimal_string(n as u32);
            s.append(d.as_str());
            s
        },
        ScoreMultiplier::OneShot => String::from_str("원샷"),
    }
}

impl Player {
    /// A description of the multiplier log, for display.
    pub fn get_multiplier_info(&self) -> (r: String)
        ensures
            r@ == multiplier_info(self.score.multipliers@, self.score.total_multiplier),
    {
        if self.score.multipliers.len() == 0 {
            return String::from_str("배수 없음");
        }
        let ghost ms = self.score.multipliers@;
        let mut info = multiplier_label_string(self.score.multipliers[0]);
        let mut i: usize = 1;
        assert(ms.take(1) =~= seq![ms[0]]);
        while i < self.score.multipliers.len()
            invariant
                ms == self.score.multipliers@,
                1 <= i <= ms.len(),
                info@ == joined_labels(ms.take(i as int)),
            decreases ms.len() - i,
        {
            let label = multiplier_label_string(self.score.multipliers[i]);
            info.append(", ");
            info.append(label.as_str());
            assert(ms.take(i + 1).drop_last() =~= ms.take(i as int));
            i = i + 1;
        }
        assert(ms.take(i as int) =~= ms);
        info.append(" (총 ×");
        let total = decimal_string(self.score.total_multiplier);
        info.append(total.as_str());
        info.append("배)");
        info
    }
}

/// One playthrough: the authoritative state of the table.
#[derive(Debug, Clone)]
pub struct Game {
    pub id: String,
    /// Undealt cards; the top of the deck is the last element.
    pub deck: Vec<Card>,
    pub field: Vec<Card>,
    pub players: Vec<Player>,
    pub current_player_idx: usize,
    pub current_round: u8,
    pub game_phase: GamePhase,
    pub turn_phase: TurnPhase,
    pub go_history: Vec<GoHistory>,
    pub special_conditions: Vec<SpecialCondition>,
    /// Consecutive rounds that ended with no winner.
    pub nagari_count: u8,
    /// The card the current player laid on the field unmatched this turn, if any.
    pub bare_play: Option<Card>,
}

/// The id given to the player at index `i` of a new game.
pub open spec fn default_player_id(i: nat) -> Seq<char> {
    "player_"@ + decimal(i)
}

/// The display name given to the player at index `i` of a new game.
pub open spec fn default_player_name(i: nat) -> Seq<char> {
    "Player "@ + decimal(i + 1)
}

/// A player who has neither cards nor a score yet.
pub open spec fn fresh_player(p: Player) -> bool {
    &&& p.hand@.len() == 0
    &&& p.captured.len_sum() == 0
    &&& p.captured.cards() == Multiset::<Card>::empty()
    &&& p.score.multipliers@.len() == 0
    &&& p.score.base_score == 0
    &&& p.score.total_multiplier == 0
    &&& p.score.final_score == 0
    &&& p.score.go_count == 0
    &&& p.shaking_cards@.len() == 0
    &&& p.ppuk_count == 0
    &&& p.is_first_turn
}

impl Game {
    /// A game waiting to start, with `player_count` players and no cards dealt.
    pub fn new(id: String, player_count: u8) -> (r: Self)
        ensures
            r.id == id,
            r.players@.len() == player_count,
            forall|i: int|
                0 <= i < player_count ==> {
                    &&& (#[trigger] r.players@[i]).id@ == default_player_id(i as nat)
                    &&& r.players@[i].name@ == default_player_name(i as nat)
                    &&& fresh_player(r.players@[i])
                },
            r.deck@.len() == 0,
            r.field@.len() == 0,
            r.current_player_idx == 0,
            r.current_round == 0,
            r.game_phase == GamePhase::Waiting,
            r.turn_phase == TurnPhase::PlayingCard,
            r.go_history@.len() == 0,
            r.special_conditions@.len() == 0,
            r.nagari_count == 0,
            r.bare_play is None,
    {
        let mut players: Vec<Player> = Vec::new();
        let mut i: u8 = 0;
        while i < player_count
            invariant
                i <= player_count,
                players@.len() == i,
                forall|k: int|
                    0 <= k < i ==> {
                        &&& (#[trigger] players@[k]).id@ == default_player_id(k as nat)
                        &&& players@[k].name@ == default_player_name(k as nat)
                        &&& fresh_player(players@[k])
                    },
            decreases player_count - i,
        {
            let mut pid = String::from_str("player_");
            let n = decimal_string(i as u32);
            pid.append(n.as_str());
            let mut name = String::from_str("Player ");
            let m = decimal_string(i as u32 + 1);
            name.append(m.as_str());
            players.push(Player::new(pid, name));
            i = i + 1;
        }
        Game {
            id,
            deck: Vec::new(),
            field: Vec::new(),
            players,
            current_player_idx: 0,
            current_round: 0,
            game_phase: GamePhase::Waiting,
            turn_phase: TurnPhase::PlayingCard,
            go_history: Vec::new(),
            special_conditions: Vec::new(),
            nagari_count: 0,
            bare_play: None,
        }
    }

    pub fn current_player(&self) -> (r: Option<&Player>)
        ensures
            r == if self.current_player_idx < self.players@.len() {
                Some(&self.players@[self.current_player_idx as int])
            } else {
                None
            },
    {
        if self.current_player_idx < self.players.len() {
            Some(&self.players[self.current_player_idx])
        } else {
            None
        }
    }

    pub fn current_player_mut(&mut self) -> (r: Option<&mut Player>)
        ensures
            (r is Some) == (old(self).current_player_idx < old(self).players@.len()),
            r matches Some(p) ==> *p == old(self).players@[old(self).current_player_idx as int],
    {
        if self.current_player_idx < self.players.len() {
            Some(&mut self.players[self.current_player_idx])
        } else {
            None
        }
    }

    /// The index of the player after the current one, wrapping around.
    pub fn next_player_idx(&self) -> (r: usize)
        requires
            self.players@.len() > 0,
            self.current_player_idx < self.players@.len(),
        ensures
            r == (self.current_player_idx + 1) % (self.players@.len() as int),
    {
        let n = self.players.len();
        (self.current_player_idx + 1) % n
    }
}

} // verus!
