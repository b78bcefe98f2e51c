//! Players and scorecards: each category may be recorded at most once, and
//! the grand total follows a fixed formula over the recorded scores.

use vstd::prelude::*;
use crate::scoring::{Category, cat_index, category_seq};

verus! {

/// The error a scorecard reports when a category is recorded twice.
#[derive(Debug, Clone, Copy, PartialEq, Eq, Structural)]
pub enum ScorecardError {
    CategoryAlreadyUsed,
}

/// How many of the first `to` slots are filled.
pub open spec fn count_filled(s: Seq<Option<u16>>, to: int) -> int
    decreases to,
{
    if to <= 0 {
        0
    } else {
        count_filled(s, to - 1) + (if s[to - 1] is Some { 1int } else { 0int })
    }
}

pub proof fn lemma_count_filled_bounds(s: Seq<Option<u16>>, to: int)
    requires
        0 <= to <= s.len(),
    ensures
        0 <= count_filled(s, to) <= to,
    decreases to,
{
    if to > 0 {
        lemma_count_filled_bounds(s, to - 1);
    }
}

/// Filling one empty slot raises the filled count by one.
pub proof fn lemma_count_filled_update(s: Seq<Option<u16>>, j: int, x: u16, to: int)
    requires
        0 <= j < s.len(),
        0 <= to <= s.len(),
        s[j] is None,
    ensures
        count_filled(s.update(j, Some(x)), to)
            == count_filled(s, to) + (if j < to { 1int } else { 0int }),
    decreases to,
{
    if to > 0 {
        lemma_count_filled_update(s, j, x, to - 1);
    }
}

/// A fully filled prefix: the count reaches `to` only when every slot is filled.
pub proof fn lemma_count_filled_full(s: Seq<Option<u16>>, to: int)
    requires
        0 <= to <= s.len(),
        count_filled(s, to) == to,
    ensures
        forall|i: int| 0 <= i < to ==> s[i] is Some,
    decreases to,
{
    if to > 0 {
        lemma_count_filled_bounds(s, to - 1);
        lemma_count_filled_full(s, to - 1);
    }
}

/// The sum of the recorded scores in slots `from .. to`; empty slots add nothing.
pub open spec fn slot_sum(s: Seq<Option<u16>>, from: int, to: int) -> int
    decreases to - from,
{
    if to <= from {
        0
    } else {
        slot_sum(s, from, to - 1) + (match s[to - 1] {
            Some(x) => x as int,
            None => 0int,
        })
    }
}

pub proof fn lemma_slot_sum_bounds(s: Seq<Option<u16>>, from: int, to: int)
    requires
        0 <= from,
        from <= to <= s.len(),
    ensures
        0 <= slot_sum(s, from, to) <= (to - from) * 0x10000,
    decreases to,
{
    if to > from {
        lemma_slot_sum_bounds(s, from, to - 1);
        assert((to - from) * 0x10000 == (to - 1 - from) * 0x10000 + 0x10000) by (nonlinear_arith);
    }
}

/// Updating a slot outside `from .. to` leaves the sum unchanged; updating an
/// empty slot inside it adds the new score.
pub proof fn lemma_slot_sum_update(s: Seq<Option<u16>>, j: int, x: u16, from: int, to: int)
    requires
        0 <= j < s.len(),
        0 <= from,
        from <= to <= s.len(),
        s[j] is None,
    ensures
        slot_sum(s.update(j, Some(x)), from, to)
            == slot_sum(s, from, to) + (if from <= j < to { x as int } else { 0int }),
    decreases to,
{
    if to > from {
        lemma_slot_sum_update(s, j, x, from, to - 1);
    }
}

/// A scorecard: one optional score per category, in scorecard order, plus a
/// counter of repeat-Yahtzee bonus credits.
#[derive(Debug, Clone, PartialEq, Eq)]
pub struct Scorecard {
    /// Slot `cat_index(c)` holds category `c`'s recorded score, if any.
    pub scores: Vec<Option<u16>>,
    pub yahtzee_bonus_count: u8,
}

impl Scorecard {
    /// A scorecard is well formed when it has exactly one slot per category.
    pub open spec fn wf(&self) -> bool {
        self.scores@.len() == 13
    }

    /// The score recorded for a category, if any.
    pub open spec fn score_at(&self, c: Category) -> Option<u16> {
        self.scores@[cat_index(c)]
    }

    /// How many categories have been recorded.
    pub open spec fn filled(&self) -> int {
        count_filled(self.scores@, 13)
    }

    /// The sum of the six upper category scores.
    pub open spec fn spec_upper_subtotal(&self) -> int {
        slot_sum(self.scores@, 0, 6)
    }

    /// The sum of the seven lower category scores.
    pub open spec fn spec_lower_total(&self) -> int {
        slot_sum(self.scores@, 6, 13)
    }

    /// The upper bonus: 35 once the upper subtotal reaches 63, else 0.
    pub open spec fn spec_upper_bonus(&self) -> int {
        if self.spec_upper_subtotal() >= 63 {
            35
        } else {
            0
        }
    }

    /// The grand total: upper subtotal, upper bonus, lower total, and 100
    /// per repeat-Yahtzee credit.
    pub open spec fn spec_grand_total(&self) -> int {
        self.spec_upper_subtotal() + self.spec_upper_bonus() + self.spec_lower_total()
            + 100 * self.yahtzee_bonus_count
    }

    /// An empty scorecard: nothing recorded, no bonus credits.
    pub fn new() -> (sc: Scorecard)
        ensures
            sc.wf(),
            forall|c: Category| sc.score_at(c) is None,
            sc.yahtzee_bonus_count == 0,
            sc.filled() == 0,
    {
        let mut scores: Vec<Option<u16>> = Vec::new();
        let mut k: usize = 0;
        while k < 13
            invariant
                k <= 13,
                scores@.len() == k,
                forall|i: int| 0 <= i < k ==> #[trigger] scores@[i] is None,
            decreases 13 - k,
        {
            scores.push(None);
            k += 1;
        }
        let sc = Scorecard { scores, yahtzee_bonus_count: 0 };
        proof {
            assert forall|c: Category| sc.score_at(c) is None by {
                crate::scoring::lemma_cat_index_bijective(c);
            }
            lemma_count_filled_all_none(sc.scores@, 13);
        }
        sc
    }

    /// Whether a category has already been recorded.
    pub fn is_category_used(&self, category: Category) -> (r: bool)
        requires
            self.wf(),
        ensures
            r == (self.score_at(category) is Some),
    {
        proof {
            crate::scoring::lemma_cat_index_bijective(category);
        }
        self.scores[category.index()].is_some()
    }

    /// The score recorded for a category, if any.
    pub fn get_score(&self, category: Category) -> (r: Option<u16>)
        requires
            self.wf(),
        ensures
            r == self.score_at(category),
    {
        proof {
            crate::scoring::lemma_cat_index_bijective(category);
        }
        self.scores[category.index()]
    }

    /// Record a score for a category. A category already recorded is
    /// rejected, and nothing changes; otherwise the one slot is filled and
    /// everything else is untouched.
    pub fn record(&mut self, category: Category, score: u16) -> (r: Result<(), ScorecardError>)
        requires
            old(self).wf(),
        ensures
            final(self).wf(),
            old(self).score_at(category) is Some ==> r == Err::<(), ScorecardError>(
                ScorecardError::CategoryAlreadyUsed,
            ) && *final(self) == *old(self),
            old(self).score_at(category) is None ==> r == Ok::<(), ScorecardError>(())
                && final(self).scores@ == old(self).scores@.update(
                cat_index(category),
                Some(score),
            ) && final(self).yahtzee_bonus_count == old(self).yahtzee_bonus_count
                && final(self).filled() == old(self).filled() + 1,
    {
        proof {
            crate::scoring::lemma_cat_index_bijective(category);
        }
        if self.is_category_used(category) {
            return Err(ScorecardError::CategoryAlreadyUsed);
        }
        proof {
            lemma_count_filled_update(self.scores@, cat_index(category), score, 13);
        }
        let idx = category.index();
        self.scores[idx] = Some(score);
        Ok(())
    }

    /// Grant one repeat-Yahtzee bonus credit.
    pub fn add_yahtzee_bonus(&mut self)
        requires
            old(self).yahtzee_bonus_count < 255,
        ensures
            final(self).yahtzee_bonus_count == old(self).yahtzee_bonus_count + 1,
            final(self).scores@ == old(self).scores@,
    {
        self.yahtzee_bonus_count += 1;
    }

    /// The sum of the six upper category scores.
    pub fn upper_subtotal(&self) -> (r: u32)
        requires
            self.wf(),
        ensures
            r == self.spec_upper_subtotal(),
    {
        let mut total: u32 = 0;
        let mut k: usize = 0;
        while k < 6
            invariant
                k <= 6,
                self.wf(),
                total == slot_sum(self.scores@, 0, k as int),
                total <= k * 0x10000,
            decreases 6 - k,
        {
            match self.scores[k] {
                Some(x) => {
                    total += x as u32;
                }
                None => {}
            }
            k += 1;
        }
        total
    }

    /// The upper bonus: 35 once the upper subtotal reaches 63, else 0.
    pub fn upper_bonus(&self) -> (r: u16)
        requires
            self.wf(),
        ensures
            r == self.spec_upper_bonus(),
    {
        if self.upper_subtotal() >= crate::scoring::UPPER_BONUS_THRESHOLD as u32 {
            crate::scoring::UPPER_BONUS_VALUE
        } else {
            0
        }
    }

    /// The sum of the seven lower category scores.
    pub fn lower_total(&self) -> (r: u32)
        requires
            self.wf(),
        ensures
            r == self.spec_lower_total(),
    {
        let mut total: u32 = 0;
        let mut k: usize = 6;
        while k < 13
            invariant
                6 <= k <= 13,
                self.wf(),
                total == slot_sum(self.scores@, 6, k as int),
                total <= k * 0x10000,
            decreases 13 - k,
        {
            match self.scores[k] {
                Some(x) => {
                    total += x as u32;
                }
                None => {}
            }
            k += 1;
        }
        total
    }

    /// The repeat-Yahtzee bonus: 100 points per credit.
    pub fn yahtzee_bonus_total(&self) -> (r: u16)
        ensures
            r == 100 * self.yahtzee_bonus_count,
    {
        self.yahtzee_bonus_count as u16 * crate::scoring::YAHTZEE_BONUS_VALUE
    }

    /// The grand total: upper subtotal plus upper bonus plus lower total
    /// plus 100 per repeat-Yahtzee credit. This formula holds of every
    /// scorecard, whatever has been recorded.
    pub fn grand_total(&self) -> (r: u32)
        requires
            self.wf(),
        ensures
            r == self.spec_grand_total(),
            r == self.spec_upper_subtotal() + self.spec_upper_bonus() + self.spec_lower_total()
                + 100 * self.yahtzee_bonus_count,
    {
        proof {
            lemma_slot_sum_bounds(self.scores@, 0, 6);
            lemma_slot_sum_bounds(self.scores@, 6, 13);
        }
        self.upper_subtotal() + self.upper_bonus() as u32 + self.lower_total()
            + self.yahtzee_bonus_total() as u32
    }

    /// Whether every category has been recorded.
    pub fn is_complete(&self) -> (r: bool)
        requires
            self.wf(),
        ensures
            r == (self.filled() == 13),
            r ==> forall|c: Category| self.score_at(c) is Some,
    {
        let mut count: usize = 0;
        let mut k: usize = 0;
        while k < 13
            invariant
                k <= 13,
                self.wf(),
                count == count_filled(self.scores@, k as int),
                count <= k,
            decreases 13 - k,
        {
            if self.scores[k].is_some() {
                count += 1;
            }
            k += 1;
        }
        proof {
            if count == 13 {
                lemma_count_filled_full(self.scores@, 13);
                assert forall|c: Category| self.score_at(c) is Some by {
                    crate::scoring::lemma_cat_index_bijective(c);
                }
            }
        }
        count == 13
    }

    /// The categories not yet recorded, in scorecard order.
    pub fn available_categories(&self) -> (v: Vec<Category>)
        requires
            self.wf(),
        ensures
            forall|c: Category| v@.contains(c) <==> self.score_at(c) is None,
            forall|i: int, j: int| 0 <= i < j < v@.len()
                ==> cat_index(v@[i]) < cat_index(v@[j]),
    {
        let all = Category::all();
        let mut v: Vec<Category> = Vec::new();
        let mut k: usize = 0;
        while k < 13
            invariant
                k <= 13,
                self.wf(),
                all@ == category_seq(),
                forall|i: int| 0 <= i < v@.len() ==> 0 <= cat_index(#[trigger] v@[i]) < k,
                forall|i: int, j: int| 0 <= i < j < v@.len()
                    ==> cat_index(v@[i]) < cat_index(v@[j]),
                forall|c: Category| cat_index(c) < k ==> (v@.contains(c) <==> self.score_at(
                    c,
                ) is None),
            decreases 13 - k,
        {
            let cat = all[k];
            proof {
                crate::scoring::lemma_cat_index_bijective(cat);
            }
            let ghost pre = v@;
            if !self.is_category_used(cat) {
                v.push(cat);
                proof {
                    assert forall|c: Category| cat_index(c) < k + 1 implies (v@.contains(c)
                        <==> self.score_at(c) is None) by {
                        if cat_index(c) < k {
                            assert(v@.contains(c) <==> pre.contains(c)) by {
                                if pre.contains(c) {
                                    let i = choose|i: int| 0 <= i < pre.len() && pre[i] == c;
                                    assert(v@[i] == c);
                                }
                                if v@.contains(c) {
                                    let i = choose|i: int| 0 <= i < v@.len() && v@[i] == c;
                                    if i < pre.len() {
                                        assert(pre[i] == c);
                                    }
                                }
                            }
                        } else {
                            assert(c == cat) by {
                                crate::scoring::lemma_cat_index_bijective(c);
                            }
                            assert(v@[v@.len() - 1] == cat);
                        }
                    }
                }
            } else {
                proof {
                    assert forall|c: Category| cat_index(c) < k + 1 implies (v@.contains(c)
                        <==> self.score_at(c) is None) by {
                        if cat_index(c) >= k {
                            assert(c == cat) by {
                                crate::scoring::lemma_cat_index_bijective(c);
                            }
                            if v@.contains(c) {
                                let i = choose|i: int| 0 <= i < v@.len() && v@[i] == c;
                                assert(cat_index(v@[i]) < k);
                            }
                        }
                    }
                }
            }
            k += 1;
        }
        v
    }
}

impl Scorecard {
    /// A slot-for-slot copy of this scorecard.
    pub fn duplicate(&self) -> (sc: Scorecard)
        ensures
            sc.scores@ == self.scores@,
            sc.yahtzee_bonus_count == self.yahtzee_bonus_count,
    {
        let mut scores: Vec<Option<u16>> = Vec::new();
        let mut k: usize = 0;
        let n = self.scores.len();
        while k < n
            invariant
                k <= n,
                n == self.scores@.len(),
                scores@ == self.scores@.take(k as int),
            decreases n - k,
        {
            scores.push(self.scores[k]);
            proof {
                assert(scores@ =~= self.scores@.take(k as int + 1));
            }
            k += 1;
        }
        proof {
            assert(self.scores@.take(n as int) =~= self.scores@);
        }
        Scorecard { scores, yahtzee_bonus_count: self.yahtzee_bonus_count }
    }
}

impl Default for Scorecard {
    fn default() -> (sc: Scorecard)
        ensures
            sc.wf(),
            forall|c: Category| sc.score_at(c) is None,
            sc.yahtzee_bonus_count == 0,
    {
        Scorecard::new()
    }
}

/// A scorecard with nothing recorded has a filled count of zero.
proof fn lemma_count_filled_all_none(s: Seq<Option<u16>>, to: int)
    requires
        forall|i: int| 0 <= i < to ==> #[trigger] s[i] is None,
    ensures
        count_filled(s, to) == 0,
    decreases to,
{
    if to > 0 {
        lemma_count_filled_all_none(s, to - 1);
    }
}

/// A player in one game: identity, display name, an owned scorecard, and a
/// connectivity flag.
#[derive(Debug, Clone, PartialEq, Eq)]
pub struct Player {
    pub id: u64,
    pub name: String,
    pub scorecard: Scorecard,
    pub connected: bool,
}

impl Player {
    /// A fresh player with an empty scorecard, marked connected.
    pub fn new(id: u64, name: String) -> (p: Player)
        ensures
            p.id == id,
            p.name@ == name@,
            p.scorecard.wf(),
            forall|c: Category| p.scorecard.score_at(c) is None,
            p.scorecard.yahtzee_bonus_count == 0,
            p.scorecard.filled() == 0,
            p.connected,
    {
        Player { id, name, scorecard: Scorecard::new(), connected: true }
    }
}

} // verus!
