//! Machine-opponent heuristics: pure strategy functions over the same
//! public engine surface a human uses — which dice to hold and which
//! category to bank, at three difficulty levels.

use vstd::prelude::*;
use crate::dice::{DiceSet, FaceRng};
use crate::player::{count_filled, Scorecard};
use crate::scoring::{self, Category};

verus! {

/// How sharply the machine opponent plays.
#[derive(Debug, Clone, Copy, PartialEq, Eq, Structural)]
pub enum AiDifficulty {
    Easy,
    Medium,
    Hard,
}

/// Hold exactly the dice showing the target face.
pub fn hold_matching(values: &[u8; 5], target: u8) -> (held: [bool; 5])
    ensures
        forall|i: int| 0 <= i < 5 ==> #[trigger] held@[i] == (values@[i] == target),
{
    [
        values[0] == target,
        values[1] == target,
        values[2] == target,
        values[3] == target,
        values[4] == target,
    ]
}

/// Hold one die for each distinct face of the best partial straight run:
/// no face is held twice, and every held die's face belongs to the chosen
/// run.
pub fn hold_for_straight(values: &[u8; 5]) -> (held: [bool; 5])
    requires
        scoring::faces_ok(values@),
    ensures
        forall|i: int, j: int| 0 <= i < j < 5 && #[trigger] held@[i] && #[trigger] held@[j]
            ==> values@[i] != values@[j],
{
    let counts = scoring::value_counts(values);

    // The candidate runs, longest first: the two full straights, then the
    // three four-length runs.
    let runs: [(u8, u8); 5] = [(1, 5), (2, 5), (1, 4), (2, 4), (3, 4)];
    let mut best_start: u8 = 1;
    let mut best_len: u8 = 5;
    let mut best_matches: u8 = 0;
    let mut k: usize = 0;
    while k < 5
        invariant
            k <= 5,
            counts@.len() == 7,
            1 <= best_start <= 3,
            4 <= best_len <= 5,
            best_start + best_len <= 7,
            runs@.len() == 5,
            forall|i: int| 0 <= i < 5 ==> 1 <= (#[trigger] runs@[i]).0 <= 3 && 4 <= runs@[i].1
                <= 5 && runs@[i].0 + runs@[i].1 <= 7,
        decreases 5 - k,
    {
        let (start, len) = runs[k];
        let mut matches: u8 = 0;
        let mut f: u8 = start;
        while f < start + len
            invariant
                start <= f <= start + len,
                start + len <= 7,
                1 <= start,
                counts@.len() == 7,
                matches <= f - start,
            decreases start + len - f,
        {
            if counts[f as usize] > 0 {
                matches += 1;
            }
            f += 1;
        }
        if matches > best_matches {
            best_matches = matches;
            best_start = start;
            best_len = len;
        }
        k += 1;
    }

    let mut held = [false, false, false, false, false];
    let mut used: Vec<bool> = vec![false, false, false, false, false, false, false];
    let mut i: usize = 0;
    while i < 5
        invariant
            i <= 5,
            used@.len() == 7,
            1 <= best_start <= 3,
            4 <= best_len <= 5,
            best_start + best_len <= 7,
            scoring::faces_ok(values@),
            held@.len() == 5,
            forall|a: int| i <= a < 5 ==> !(#[trigger] held@[a]),
            forall|a: int| 0 <= a < i && #[trigger] held@[a] ==> used@[values@[a] as int],
            forall|a: int, b: int| 0 <= a < b < i && #[trigger] held@[a] && #[trigger] held@[b]
                ==> values@[a] != values@[b],
        decreases 5 - i,
    {
        let v = values[i];
        if v >= best_start && v < best_start + best_len && !used[v as usize] {
            held[i] = true;
            used[v as usize] = true;
            proof {
                assert forall|a: int, b: int| 0 <= a < b < i + 1 && #[trigger] held@[a]
                    && #[trigger] held@[b] implies values@[a] != values@[b] by {
                    if b == i {
                        assert(used@[values@[a] as int] || values@[a] != values@[b]);
                    }
                }
            }
        }
        i += 1;
    }
    held
}

/// The face an upper category scores; zero for the lower categories.
pub fn upper_face_value(cat: Category) -> (r: u8)
    ensures
        r == scoring::upper_face(cat),
{
    match cat {
        Category::Ones => 1,
        Category::Twos => 2,
        Category::Threes => 3,
        Category::Fours => 4,
        Category::Fives => 5,
        Category::Sixes => 6,
        _ => 0,
    }
}

/// The hard level's weight for banking `score` in `cat`: the immediate
/// score, raised for a made Yahtzee, large straight or full house, and for
/// upper scores that keep the bonus in reach. Never below the score.
pub open spec fn spec_cat_priority(cat: Category, score: int, sc: Scorecard) -> int {
    if cat == Category::Yahtzee && score == 50 {
        score + 100
    } else if cat == Category::LargeStraight && score > 0 {
        score + 20
    } else if cat == Category::FullHouse && score > 0 {
        score + 10
    } else if scoring::is_upper_cat(cat) {
        let used = count_filled(sc.scores@, 6);
        let remaining = 6 - used;
        if remaining > 0 {
            let needed = if sc.spec_upper_subtotal() >= 63 {
                0int
            } else {
                63 - sc.spec_upper_subtotal()
            };
            let target = needed / remaining;
            let expected = 3 * scoring::upper_face(cat);
            if score >= expected {
                score + 15
            } else if score >= target && score > 0 {
                score + 5
            } else {
                score
            }
        } else {
            score
        }
    } else {
        score
    }
}

/// The weight a difficulty level gives a category: the raw score for the
/// greedy level, the strategic weight for the hard one.
pub open spec fn spec_ai_priority(
    difficulty: AiDifficulty,
    cat: Category,
    score: int,
    sc: Scorecard,
) -> int {
    if difficulty is Hard {
        spec_cat_priority(cat, score, sc)
    } else {
        score
    }
}

/// For the hard level: weight a category's immediate score by strategic
/// value — protect a made Yahtzee, large straight or full house, and favor
/// upper scores that keep the bonus in reach.
pub fn category_priority(cat: Category, score: u16, scorecard: &Scorecard) -> (r: i32)
    requires
        scorecard.wf(),
        score <= 50,
    ensures
        r == spec_cat_priority(cat, score as int, *scorecard),
        r >= score,
{
    let base = score as i32;
    match cat {
        Category::Yahtzee if score == 50 => base + 100,
        Category::LargeStraight if score > 0 => base + 20,
        Category::FullHouse if score > 0 => base + 10,
        _ => {
            if cat.is_upper() {
                let upper_so_far = scorecard.upper_subtotal();
                let mut cats_used: u8 = 0;
                let all = Category::all();
                let mut k: usize = 0;
                while k < 6
                    invariant
                        k <= 6,
                        cats_used <= k,
                        scorecard.wf(),
                        all@ == scoring::category_seq(),
                        cats_used == count_filled(scorecard.scores@, k as int),
                    decreases 6 - k,
                {
                    proof {
                        scoring::lemma_cat_index_bijective(scoring::category_seq()[k as int]);
                    }
                    if scorecard.is_category_used(all[k]) {
                        cats_used += 1;
                    }
                    k += 1;
                }
                let cats_remaining: u8 = 6 - cats_used;
                if cats_remaining > 0 {
                    let remaining_needed: u32 = if upper_so_far >= 63 {
                        0
                    } else {
                        63 - upper_so_far
                    };
                    let target_per_cat = remaining_needed / (cats_remaining as u32);
                    let face_val = upper_face_value(cat);
                    let expected = (face_val as u16) * 3;
                    if score >= expected {
                        base + 15
                    } else if score as u32 >= target_per_cat && score > 0 {
                        base + 5
                    } else {
                        base
                    }
                } else {
                    base
                }
            } else {
                base
            }
        }
    }
}

/// When every open category would score zero, burn the least valuable one:
/// never a rare shape while a cheap upper slot is open.
pub fn least_valuable_zero(available: &Vec<Category>, scorecard: &Scorecard) -> (r: Category)
    requires
        scorecard.wf(),
    ensures
        available@.len() > 0 ==> available@.contains(r),
        available@.len() == 0 ==> r == Category::Chance,
{
    let upper_total = scorecard.upper_subtotal();
    let mut best: Option<Category> = None;
    let mut best_priority: i32 = 0;
    let mut k: usize = 0;
    let n = available.len();
    while k < n
        invariant
            k <= n,
            n == available@.len(),
            best is Some <==> k > 0 && n > 0,
            best matches Some(c) ==> available@.contains(c),
        decreases n - k,
    {
        let cat = available[k];
        let priority: i32 = match cat {
            Category::Yahtzee => -100,
            Category::LargeStraight => -80,
            Category::FullHouse => -60,
            Category::SmallStraight => -50,
            Category::FourOfAKind => -40,
            Category::ThreeOfAKind => -30,
            Category::Ones => 10,
            Category::Twos => 5,
            Category::Threes => 0,
            Category::Chance => -10,
            _ => {
                if upper_total >= 50 {
                    -20
                } else {
                    0
                }
            }
        };
        let replace = match best {
            None => true,
            Some(_) => priority > best_priority,
        };
        if replace {
            proof {
                assert(available@[k as int] == cat);
            }
            best = Some(cat);
            best_priority = priority;
        }
        k += 1;
    }
    match best {
        Some(c) => c,
        None => Category::Chance,
    }
}

/// A category `c` is no better a pick than `r` for these dice: its weight
/// is lower, or equal with no higher score.
pub open spec fn no_better_pick(
    difficulty: AiDifficulty,
    c: Category,
    r: Category,
    vals: Seq<u8>,
    sc: Scorecard,
) -> bool {
    let pc = spec_ai_priority(difficulty, c, scoring::spec_score(c, vals), sc);
    let pr = spec_ai_priority(difficulty, r, scoring::spec_score(r, vals), sc);
    pc < pr || (pc == pr && scoring::spec_score(c, vals) <= scoring::spec_score(r, vals))
}

/// Greedy category choice: the open category with the best weighted score;
/// when everything scores zero, the least valuable open category. Always an
/// open category while one remains, and when some open category scores,
/// none outweighs the choice.
pub fn greedy_category(dice: &DiceSet, scorecard: &Scorecard, difficulty: AiDifficulty) -> (r:
    Category)
    requires
        dice.wf(),
        scorecard.wf(),
    ensures
        (exists|c: Category| scorecard.score_at(c) is None) ==> scorecard.score_at(r) is None,
        (exists|c: Category|
            scorecard.score_at(c) is None && scoring::spec_score(c, dice.values_seq()) > 0)
            ==> {
            &&& scoring::spec_score(r, dice.values_seq()) > 0
            &&& forall|c: Category| scorecard.score_at(c) is None ==> no_better_pick(
                difficulty,
                c,
                r,
                dice.values_seq(),
                *scorecard,
            )
        },
{
    let values = dice.values();
    let available = scorecard.available_categories();

    if available.is_empty() {
        proof {
            if exists|c: Category| scorecard.score_at(c) is None {
                let c = choose|c: Category| scorecard.score_at(c) is None;
                assert(available@.contains(c));
            }
        }
        return Category::Chance;
    }

    let ghost vals = dice.values_seq();
    let mut best: Category = available[0];
    let mut best_score: u16 = scoring::compute_score(best, &values);
    let mut best_priority: i32 = if matches!(difficulty, AiDifficulty::Hard) {
        category_priority(best, best_score, scorecard)
    } else {
        best_score as i32
    };
    let mut k: usize = 1;
    let n = available.len();
    while k < n
        invariant
            1 <= k <= n,
            n == available@.len(),
            dice.wf(),
            scorecard.wf(),
            vals == dice.values_seq(),
            values@ == vals,
            scoring::faces_ok(values@),
            available@.contains(best),
            forall|c: Category| available@.contains(c) <==> scorecard.score_at(c) is None,
            best_score == scoring::spec_score(best, vals),
            best_priority == spec_ai_priority(
                difficulty,
                best,
                scoring::spec_score(best, vals),
                *scorecard,
            ),
            forall|j: int| 0 <= j < k ==> no_better_pick(
                difficulty,
                #[trigger] available@[j],
                best,
                vals,
                *scorecard,
            ),
            best_score <= 50,
        decreases n - k,
    {
        let cat = available[k];
        let score = scoring::compute_score(cat, &values);
        let priority: i32 = if matches!(difficulty, AiDifficulty::Hard) {
            category_priority(cat, score, scorecard)
        } else {
            score as i32
        };
        if priority > best_priority || (priority == best_priority && score > best_score) {
            proof {
                assert(available@[k as int] == cat);
            }
            best = cat;
            best_score = score;
            best_priority = priority;
        }
        k += 1;
    }

    proof {
        assert forall|c: Category| scorecard.score_at(c) is None implies no_better_pick(
            difficulty,
            c,
            best,
            vals,
            *scorecard,
        ) by {
            assert(available@.contains(c));
            let j = choose|j: int| 0 <= j < available@.len() && available@[j] == c;
            assert(no_better_pick(difficulty, available@[j], best, vals, *scorecard));
        }
    }

    if best_score == 0 {
        proof {
            if exists|c: Category|
                scorecard.score_at(c) is None && scoring::spec_score(c, vals) > 0 {
                let c = choose|c: Category|
                    scorecard.score_at(c) is None && scoring::spec_score(c, vals) > 0;
                assert(no_better_pick(difficulty, c, best, vals, *scorecard));
                assert(spec_ai_priority(
                    difficulty,
                    c,
                    scoring::spec_score(c, vals),
                    *scorecard,
                ) >= scoring::spec_score(c, vals));
                assert(spec_ai_priority(difficulty, best, 0, *scorecard) == 0);
                assert(false);
            }
        }
        let r = least_valuable_zero(&available, scorecard);
        return r;
    }
    best
}

/// Greedy hold choice: aim at the best open category and hold the dice
/// that contribute to it.
pub fn greedy_holds(dice: &DiceSet, scorecard: &Scorecard, difficulty: AiDifficulty)
    -> (held: [bool; 5])
    requires
        dice.wf(),
        scorecard.wf(),
{
    let values = dice.values();
    let available = scorecard.available_categories();

    if available.is_empty() {
        return [false, false, false, false, false];
    }

    let best_cat = greedy_category(dice, scorecard, difficulty);

    match best_cat {
        Category::Ones => hold_matching(&values, 1),
        Category::Twos => hold_matching(&values, 2),
        Category::Threes => hold_matching(&values, 3),
        Category::Fours => hold_matching(&values, 4),
        Category::Fives => hold_matching(&values, 5),
        Category::Sixes => hold_matching(&values, 6),
        Category::ThreeOfAKind | Category::FourOfAKind | Category::Yahtzee => {
            let counts = scoring::value_counts(&values);
            let mut best_val: u8 = 1;
            let mut v: u8 = 2;
            while v <= 6
                invariant
                    2 <= v <= 7,
                    1 <= best_val <= 6,
                    counts@.len() == 7,
                decreases 7 - v,
            {
                if counts[v as usize] >= counts[best_val as usize] {
                    best_val = v;
                }
                v += 1;
            }
            hold_matching(&values, best_val)
        }
        Category::FullHouse => {
            let counts = scoring::value_counts(&values);
            // The two most frequent faces with a pair or better, largest
            // group first.
            let mut triple_val: u8 = 0;
            let mut pair_val: u8 = 0;
            let mut v: u8 = 1;
            while v <= 6
                invariant
                    1 <= v <= 7,
                    counts@.len() == 7,
                    triple_val <= 6,
                    pair_val <= 6,
                decreases 7 - v,
            {
                if counts[v as usize] >= 2 {
                    if triple_val == 0 || counts[v as usize] > counts[triple_val as usize] {
                        pair_val = triple_val;
                        triple_val = v;
                    } else if pair_val == 0 {
                        pair_val = v;
                    }
                }
                v += 1;
            }
            if triple_val > 0 && pair_val > 0 {
                let mut held = [false, false, false, false, false];
                let mut triple_count: u8 = 0;
                let mut pair_count: u8 = 0;
                let mut i: usize = 0;
                while i < 5
                    invariant
                        i <= 5,
                        triple_count <= 3,
                        pair_count <= 2,
                    decreases 5 - i,
                {
                    let val = values[i];
                    if val == triple_val && triple_count < 3 {
                        held[i] = true;
                        triple_count += 1;
                    } else if val == pair_val && pair_count < 2 {
                        held[i] = true;
                        pair_count += 1;
                    }
                    i += 1;
                }
                held
            } else {
                let mut best_val: u8 = 1;
                let mut v2: u8 = 2;
                while v2 <= 6
                    invariant
                        2 <= v2 <= 7,
                        1 <= best_val <= 6,
                        counts@.len() == 7,
                    decreases 7 - v2,
                {
                    if counts[v2 as usize] > counts[best_val as usize] {
                        best_val = v2;
                    }
                    v2 += 1;
                }
                hold_matching(&values, best_val)
            }
        }
        Category::SmallStraight | Category::LargeStraight => hold_for_straight(&values),
        Category::Chance => {
            let mut held = [false, false, false, false, false];
            let mut i: usize = 0;
            while i < 5
                invariant
                    i <= 5,
                decreases 5 - i,
            {
                held[i] = values[i] >= 4;
                i += 1;
            }
            held
        }
    }
}

/// Choose which dice to hold: random holds on the easy level, greedy holds
/// otherwise.
pub fn choose_holds(
    dice: &DiceSet,
    scorecard: &Scorecard,
    difficulty: AiDifficulty,
    rng: &mut FaceRng,
) -> (held: [bool; 5])
    requires
        dice.wf(),
        scorecard.wf(),
{
    match difficulty {
        AiDifficulty::Easy => {
            let mut held = [false, false, false, false, false];
            let mut i: usize = 0;
            while i < 5
                invariant
                    i <= 5,
                decreases 5 - i,
            {
                held[i] = rng.chance(3, 10);
                i += 1;
            }
            held
        }
        AiDifficulty::Medium | AiDifficulty::Hard => greedy_holds(dice, scorecard, difficulty),
    }
}

/// Choose which category to bank: a uniformly random open category on the
/// easy level, the greedy choice otherwise. Always an open category while
/// one remains.
pub fn choose_category(
    dice: &DiceSet,
    scorecard: &Scorecard,
    difficulty: AiDifficulty,
    rng: &mut FaceRng,
) -> (r: Category)
    requires
        dice.wf(),
        scorecard.wf(),
    ensures
        (exists|c: Category| scorecard.score_at(c) is None) ==> scorecard.score_at(r) is None,
        (!(difficulty is Easy) && exists|c: Category|
            scorecard.score_at(c) is None && scoring::spec_score(c, dice.values_seq()) > 0)
            ==> {
            &&& scoring::spec_score(r, dice.values_seq()) > 0
            &&& forall|c: Category| scorecard.score_at(c) is None ==> no_better_pick(
                difficulty,
                c,
                r,
                dice.values_seq(),
                *scorecard,
            )
        },
{
    let available = scorecard.available_categories();
    if available.is_empty() {
        proof {
            if exists|c: Category| scorecard.score_at(c) is None {
                let c = choose|c: Category| scorecard.score_at(c) is None;
                assert(available@.contains(c));
            }
        }
        return Category::Chance;
    }

    match difficulty {
        AiDifficulty::Easy => {
            let idx = rng.next_below(available.len() as u64) as usize;
            let r = available[idx];
            proof {
                assert(available@.contains(r));
            }
            r
        }
        AiDifficulty::Medium | AiDifficulty::Hard => greedy_category(dice, scorecard, difficulty),
    }
}

} // verus!
