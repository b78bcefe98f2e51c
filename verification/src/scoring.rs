//! Category scoring rules: the thirteen categories and the exact point value
//! each one awards for a set of five dice.

use vstd::prelude::*;
use crate::dice::face_count;

verus! {

/// The thirteen scoring categories: six upper face categories and seven
/// lower combination categories.
#[derive(Debug, Clone, Copy, PartialEq, Eq, Hash, Structural)]
pub enum Category {
    Ones,
    Twos,
    Threes,
    Fours,
    Fives,
    Sixes,
    ThreeOfAKind,
    FourOfAKind,
    FullHouse,
    SmallStraight,
    LargeStraight,
    Yahtzee,
    Chance,
}

/// Every category, in scorecard order.
pub open spec fn category_seq() -> Seq<Category> {
    seq![
        Category::Ones,
        Category::Twos,
        Category::Threes,
        Category::Fours,
        Category::Fives,
        Category::Sixes,
        Category::ThreeOfAKind,
        Category::FourOfAKind,
        Category::FullHouse,
        Category::SmallStraight,
        Category::LargeStraight,
        Category::Yahtzee,
        Category::Chance,
    ]
}

/// The position of a category in scorecard order.
pub open spec fn cat_index(c: Category) -> int {
    match c {
        Category::Ones => 0,
        Category::Twos => 1,
        Category::Threes => 2,
        Category::Fours => 3,
        Category::Fives => 4,
        Category::Sixes => 5,
        Category::ThreeOfAKind => 6,
        Category::FourOfAKind => 7,
        Category::FullHouse => 8,
        Category::SmallStraight => 9,
        Category::LargeStraight => 10,
        Category::Yahtzee => 11,
        Category::Chance => 12,
    }
}

pub broadcast proof fn lemma_cat_index_bijective(c: Category)
    ensures
        0 <= #[trigger] cat_index(c) < 13,
        category_seq()[cat_index(c)] == c,
{
}

impl Category {
    /// The position of this category in scorecard order.
    pub fn index(&self) -> (i: usize)
        ensures
            i == cat_index(*self),
    {
        match self {
            Category::Ones => 0,
            Category::Twos => 1,
            Category::Threes => 2,
            Category::Fours => 3,
            Category::Fives => 4,
            Category::Sixes => 5,
            Category::ThreeOfAKind => 6,
            Category::FourOfAKind => 7,
            Category::FullHouse => 8,
            Category::SmallStraight => 9,
            Category::LargeStraight => 10,
            Category::Yahtzee => 11,
            Category::Chance => 12,
        }
    }

    /// Every category, in scorecard order.
    pub fn all() -> (v: Vec<Category>)
        ensures
            v@ == category_seq(),
    {
        let mut v: Vec<Category> = Vec::new();
        v.push(Category::Ones);
        v.push(Category::Twos);
        v.push(Category::Threes);
        v.push(Category::Fours);
        v.push(Category::Fives);
        v.push(Category::Sixes);
        v.push(Category::ThreeOfAKind);
        v.push(Category::FourOfAKind);
        v.push(Category::FullHouse);
        v.push(Category::SmallStraight);
        v.push(Category::LargeStraight);
        v.push(Category::Yahtzee);
        v.push(Category::Chance);
        proof {
            assert(v@ =~= category_seq());
        }
        v
    }

    /// Whether the category is one of the six upper face categories.
    pub fn is_upper(&self) -> (r: bool)
        ensures
            r == is_upper_cat(*self),
    {
        matches!(
            self,
            Category::Ones
                | Category::Twos
                | Category::Threes
                | Category::Fours
                | Category::Fives
                | Category::Sixes
        )
    }

    /// A short human-readable label for the category.
    pub fn display_name(&self) -> &'static str {
        match self {
            Category::Ones => "Ones",
            Category::Twos => "Twos",
            Category::Threes => "Threes",
            Category::Fours => "Fours",
            Category::Fives => "Fives",
            Category::Sixes => "Sixes",
            Category::ThreeOfAKind => "3 of a Kind",
            Category::FourOfAKind => "4 of a Kind",
            Category::FullHouse => "Full House",
            Category::SmallStraight => "Sm. Straight",
            Category::LargeStraight => "Lg. Straight",
            Category::Yahtzee => "YAHTZEE",
            Category::Chance => "Chance",
        }
    }
}

/// Whether the category is an upper face category.
pub open spec fn is_upper_cat(c: Category) -> bool {
    cat_index(c) < 6
}

/// The face an upper category scores, zero for the lower categories.
pub open spec fn upper_face(c: Category) -> u8 {
    match c {
        Category::Ones => 1,
        Category::Twos => 2,
        Category::Threes => 3,
        Category::Fours => 4,
        Category::Fives => 5,
        Category::Sixes => 6,
        _ => 0,
    }
}

/// Upper bonus is awarded once the upper subtotal reaches this threshold.
pub const UPPER_BONUS_THRESHOLD: u16 = 63;

/// Value of the upper bonus.
pub const UPPER_BONUS_VALUE: u16 = 35;

/// Value of each repeat-Yahtzee bonus credit.
pub const YAHTZEE_BONUS_VALUE: u16 = 100;

/// The sum of all faces in the sequence.
pub open spec fn sum_faces(s: Seq<u8>) -> int
    decreases s.len(),
{
    if s.len() == 0 {
        0
    } else {
        sum_faces(s.drop_last()) + s.last()
    }
}

/// At least `n` dice share one face.
pub open spec fn has_n_kind(s: Seq<u8>, n: nat) -> bool {
    exists|v: u8| 1 <= v <= 6 && face_count(s, v) >= n
}

/// Some face appears exactly three times and a different face exactly twice.
pub open spec fn full_house(s: Seq<u8>) -> bool {
    &&& exists|v: u8| 1 <= v <= 6 && face_count(s, v) == 3
    &&& exists|v: u8| 1 <= v <= 6 && face_count(s, v) == 2
}

/// Every face in `start .. start + len` is present at least once.
pub open spec fn run_present(s: Seq<u8>, start: u8, len: u8) -> bool {
    forall|k: u8| start <= k < start + len ==> face_count(s, k) >= 1
}

/// A four-length consecutive run is fully present.
pub open spec fn small_straight(s: Seq<u8>) -> bool {
    run_present(s, 1, 4) || run_present(s, 2, 4) || run_present(s, 3, 4)
}

/// A five-length consecutive run is fully present.
pub open spec fn large_straight(s: Seq<u8>) -> bool {
    run_present(s, 1, 5) || run_present(s, 2, 5)
}

/// All five dice share one face.
pub open spec fn yahtzee(s: Seq<u8>) -> bool {
    has_n_kind(s, 5)
}

/// The exact score a category awards for the dice `s`, by the rules:
/// upper categories sum the matching dice; three and four of a kind award
/// the sum of all five dice when the shape is present; full house, the
/// straights and a Yahtzee award their fixed values; Chance always awards
/// the sum of all five dice.
pub open spec fn spec_score(c: Category, s: Seq<u8>) -> int {
    if is_upper_cat(c) {
        upper_face(c) * face_count(s, upper_face(c))
    } else {
        match c {
            Category::ThreeOfAKind => if has_n_kind(s, 3) { sum_faces(s) } else { 0 },
            Category::FourOfAKind => if has_n_kind(s, 4) { sum_faces(s) } else { 0 },
            Category::FullHouse => if full_house(s) { 25 } else { 0 },
            Category::SmallStraight => if small_straight(s) { 30 } else { 0 },
            Category::LargeStraight => if large_straight(s) { 40 } else { 0 },
            Category::Yahtzee => if yahtzee(s) { 50 } else { 0 },
            _ => sum_faces(s),
        }
    }
}

/// The joker score: when `joker` is set, a full house and the straights
/// award their fixed value whatever the dice show; every other category
/// scores as usual.
pub open spec fn spec_score_joker(c: Category, s: Seq<u8>, joker: bool) -> int {
    if joker {
        match c {
            Category::FullHouse => 25,
            Category::SmallStraight => 30,
            Category::LargeStraight => 40,
            _ => spec_score(c, s),
        }
    } else {
        spec_score(c, s)
    }
}

/// Whether every entry of `s` is a real die face.
pub open spec fn faces_ok(s: Seq<u8>) -> bool {
    forall|i: int| 0 <= i < s.len() ==> 1 <= #[trigger] s[i] && s[i] <= 6
}

/// The sum of five real faces is at most 30.
proof fn lemma_sum_faces_bounds(s: Seq<u8>)
    requires
        faces_ok(s),
    ensures
        0 <= sum_faces(s) <= 6 * s.len(),
    decreases s.len(),
{
    if s.len() > 0 {
        assert(faces_ok(s.drop_last()));
        lemma_sum_faces_bounds(s.drop_last());
    }
}

/// Count of one face times its value; the score of an upper category.
fn count_value(dice: &[u8; 5], val: u8) -> (r: u16)
    requires
        1 <= val <= 6,
    ensures
        r == val * face_count(dice@, val),
        r <= 30,
{
    let mut count: u8 = 0;
    let mut k: usize = 0;
    while k < 5
        invariant
            k <= 5,
            count == face_count(dice@.take(k as int), val),
            count <= k,
        decreases 5 - k,
    {
        proof {
            crate::dice::lemma_face_count_push(dice@.take(k as int), dice@[k as int]);
            assert(dice@.take(k as int + 1) =~= dice@.take(k as int).push(dice@[k as int]));
        }
        if dice[k] == val {
            count += 1;
        }
        k += 1;
    }
    proof {
        assert(dice@.take(5) =~= dice@);
        assert(count * val <= 30) by (nonlinear_arith)
            requires
                count <= 5,
                val <= 6,
        {}
    }
    (count as u16) * (val as u16)
}

/// The sum of all five dice.
fn sum(dice: &[u8; 5]) -> (r: u16)
    requires
        faces_ok(dice@),
    ensures
        r == sum_faces(dice@),
        r <= 30,
{
    let mut total: u16 = 0;
    let mut k: usize = 0;
    while k < 5
        invariant
            k <= 5,
            faces_ok(dice@),
            total == sum_faces(dice@.take(k as int)),
            total <= 6 * k,
        decreases 5 - k,
    {
        proof {
            assert(dice@.take(k as int + 1).drop_last() =~= dice@.take(k as int));
            assert(dice@.take(k as int + 1).last() == dice@[k as int]);
        }
        total += dice[k] as u16;
        k += 1;
    }
    proof {
        assert(dice@.take(5) =~= dice@);
    }
    total
}

/// Slot `v` of the result holds how many dice show face `v`.
pub(crate) fn value_counts(dice: &[u8; 5]) -> (counts: Vec<u8>)
    requires
        faces_ok(dice@),
    ensures
        counts@.len() == 7,
        forall|v: u8| 1 <= v <= 6 ==> counts@[v as int] == face_count(dice@, v),
        forall|v: u8| 1 <= v <= 6 ==> counts@[v as int] <= 5,
{
    let mut counts: Vec<u8> = vec![0, 0, 0, 0, 0, 0, 0];
    let mut k: usize = 0;
    while k < 5
        invariant
            k <= 5,
            counts@.len() == 7,
            faces_ok(dice@),
            forall|v: u8| 1 <= v <= 6 ==> counts@[v as int] == face_count(dice@.take(k as int), v),
            forall|v: u8| 1 <= v <= 6 ==> counts@[v as int] <= k,
        decreases 5 - k,
    {
        let f = dice[k];
        proof {
            crate::dice::lemma_face_count_push(dice@.take(k as int), dice@[k as int]);
            assert(dice@.take(k as int + 1) =~= dice@.take(k as int).push(dice@[k as int]));
        }
        counts[f as usize] = counts[f as usize] + 1;
        k += 1;
    }
    proof {
        assert(dice@.take(5) =~= dice@);
    }
    counts
}

/// Whether at least `n` dice share one face.
fn has_n_of_a_kind(dice: &[u8; 5], n: u8) -> (r: bool)
    requires
        faces_ok(dice@),
    ensures
        r == has_n_kind(dice@, n as nat),
{
    let counts = value_counts(dice);
    let mut v: u8 = 1;
    while v <= 6
        invariant
            1 <= v <= 7,
            counts@.len() == 7,
            forall|w: u8| 1 <= w <= 6 ==> counts@[w as int] == face_count(dice@, w),
            forall|w: u8| 1 <= w < v ==> face_count(dice@, w) < n,
        decreases 7 - v,
    {
        if counts[v as usize] >= n {
            return true;
        }
        v += 1;
    }
    false
}

/// Whether some face appears exactly three times and another exactly twice.
fn is_full_house(dice: &[u8; 5]) -> (r: bool)
    requires
        faces_ok(dice@),
    ensures
        r == full_house(dice@),
{
    let counts = value_counts(dice);
    let mut has_three = false;
    let mut has_two = false;
    let mut v: u8 = 1;
    while v <= 6
        invariant
            1 <= v <= 7,
            counts@.len() == 7,
            forall|w: u8| 1 <= w <= 6 ==> counts@[w as int] == face_count(dice@, w),
            has_three == exists|w: u8| 1 <= w < v && face_count(dice@, w) == 3,
            has_two == exists|w: u8| 1 <= w < v && face_count(dice@, w) == 2,
        decreases 7 - v,
    {
        if counts[v as usize] == 3 {
            has_three = true;
        }
        if counts[v as usize] == 2 {
            has_two = true;
        }
        v += 1;
    }
    has_three && has_two
}

/// Whether every face in `start .. start + len` is present.
fn run_fully_present(dice: &[u8; 5], start: u8, len: u8) -> (r: bool)
    requires
        faces_ok(dice@),
        1 <= start,
        start + len <= 7,
    ensures
        r == run_present(dice@, start, len),
{
    let counts = value_counts(dice);
    let mut k: u8 = start;
    while k < start + len
        invariant
            start <= k <= start + len,
            start + len <= 7,
            1 <= start,
            counts@.len() == 7,
            forall|w: u8| 1 <= w <= 6 ==> counts@[w as int] == face_count(dice@, w),
            forall|w: u8| start <= w < k ==> face_count(dice@, w) >= 1,
        decreases start + len - k,
    {
        if counts[k as usize] == 0 {
            return false;
        }
        k += 1;
    }
    true
}

/// Whether a four-length consecutive run is fully present.
fn has_small_straight(dice: &[u8; 5]) -> (r: bool)
    requires
        faces_ok(dice@),
    ensures
        r == small_straight(dice@),
{
    run_fully_present(dice, 1, 4) || run_fully_present(dice, 2, 4) || run_fully_present(dice, 3, 4)
}

/// Whether a five-length consecutive run is fully present.
fn has_large_straight(dice: &[u8; 5]) -> (r: bool)
    requires
        faces_ok(dice@),
    ensures
        r == large_straight(dice@),
{
    run_fully_present(dice, 1, 5) || run_fully_present(dice, 2, 5)
}

/// Whether all five dice share one face.
fn is_yahtzee(dice: &[u8; 5]) -> (r: bool)
    requires
        faces_ok(dice@),
    ensures
        r == yahtzee(dice@),
{
    has_n_of_a_kind(dice, 5)
}

/// Compute the score for a given category and dice values.
pub fn compute_score(category: Category, dice: &[u8; 5]) -> (r: u16)
    requires
        faces_ok(dice@),
    ensures
        r == spec_score(category, dice@),
        r <= 50,
{
    proof {
        lemma_sum_faces_bounds(dice@);
    }
    match category {
        Category::Ones => count_value(dice, 1),
        Category::Twos => count_value(dice, 2),
        Category::Threes => count_value(dice, 3),
        Category::Fours => count_value(dice, 4),
        Category::Fives => count_value(dice, 5),
        Category::Sixes => count_value(dice, 6),
        Category::ThreeOfAKind => {
            if has_n_of_a_kind(dice, 3) {
                sum(dice)
            } else {
                0
            }
        }
        Category::FourOfAKind => {
            if has_n_of_a_kind(dice, 4) {
                sum(dice)
            } else {
                0
            }
        }
        Category::FullHouse => {
            if is_full_house(dice) {
                25
            } else {
                0
            }
        }
        Category::SmallStraight => {
            if has_small_straight(dice) {
                30
            } else {
                0
            }
        }
        Category::LargeStraight => {
            if has_large_straight(dice) {
                40
            } else {
                0
            }
        }
        Category::Yahtzee => {
            if is_yahtzee(dice) {
                50
            } else {
                0
            }
        }
        Category::Chance => sum(dice),
    }
}

/// Compute a score under the joker rule: when the roll is a repeat Yahtzee,
/// a full house and the straights award their fixed values even though the
/// dice are not literally that shape; every other category is unchanged.
pub fn compute_score_joker(category: Category, dice: &[u8; 5], joker_active: bool) -> (r: u16)
    requires
        faces_ok(dice@),
    ensures
        r == spec_score_joker(category, dice@, joker_active),
        r <= 50,
{
    if joker_active {
        match category {
            Category::FullHouse => 25,
            Category::SmallStraight => 30,
            Category::LargeStraight => 40,
            _ => compute_score(category, dice),
        }
    } else {
        compute_score(category, dice)
    }
}

} // verus!
