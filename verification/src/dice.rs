//! Dice state: a single die, the set of five dice a turn is played with, and
//! the random source used to roll them.

use vstd::prelude::*;

verus! {

/// Number of dice in a set.
pub const NUM_DICE: usize = 5;

/// Maximum number of rolls in one turn.
pub const MAX_ROLLS: u8 = 3;

/// A source of die faces, backed by a seedable pseudo-random generator.
///
/// Nothing is known about which face comes next; every contract downstream
/// holds for every sequence of faces the generator may produce.
pub struct FaceRng {
    inner: rand::rngs::StdRng,
}

#[verifier::external_type_specification]
#[verifier::external_body]
pub struct ExStdRng(rand::rngs::StdRng);

impl FaceRng {
    /// Relies on rand's `StdRng::seed_from_u64` to build a deterministic
    /// generator from a seed.
    #[verifier::external_body]
    pub fn seed_from(seed: u64) -> FaceRng {
        FaceRng { inner: <rand::rngs::StdRng as rand::SeedableRng>::seed_from_u64(seed) }
    }

    /// Relies on rand's `SeedableRng::from_entropy` to build a generator
    /// seeded from the operating system. The call aborts the process if the
    /// system's entropy source fails — an environmental fault no input can
    /// avoid.
    #[verifier::external_body]
    pub fn from_entropy() -> FaceRng {
        FaceRng { inner: <rand::rngs::StdRng as rand::SeedableRng>::from_entropy() }
    }

    /// Relies on rand's `Rng::gen_range`: a uniform value in `0..n`.
    /// The range is non-empty, so the call cannot panic.
    #[verifier::external_body]
    pub fn next_below(&mut self, n: u64) -> (r: u64)
        requires
            n > 0,
        ensures
            r < n,
    {
        rand::Rng::gen_range(&mut self.inner, 0..n)
    }

    /// Relies on rand's `Rng::gen_ratio`: true with probability
    /// `num` in `den`. `gen_ratio` panics when `den` is zero or `num`
    /// exceeds `den`, so those inputs are excluded.
    #[verifier::external_body]
    pub fn chance(&mut self, num: u32, den: u32) -> bool
        requires
            0 < den,
            num <= den,
    {
        rand::Rng::gen_ratio(&mut self.inner, num, den)
    }

    /// A uniform die face in `1..=6`.
    pub fn next_face(&mut self) -> (f: u8)
        ensures
            1 <= f <= 6,
    {
        let r = self.next_below(6);
        (r as u8) + 1
    }
}

/// A single die: a face value and whether the player is holding it.
#[derive(Debug, Clone, Copy, PartialEq, Eq, Structural)]
pub struct Die {
    pub value: u8,
    pub held: bool,
}

/// A die is well formed when its face is one of the six real faces.
pub open spec fn die_ok(d: Die) -> bool {
    1 <= d.value <= 6
}

impl Die {
    /// A fresh die: face 1, not held.
    pub fn new() -> (d: Die)
        ensures
            d.value == 1,
            !d.held,
            die_ok(d),
    {
        Die { value: 1, held: false }
    }

    /// Roll the die: a held die keeps its value, an unheld one gets a fresh
    /// uniform face.
    pub fn roll(&mut self, rng: &mut FaceRng)
        ensures
            final(self).held == old(self).held,
            old(self).held ==> *final(self) == *old(self),
            !old(self).held ==> 1 <= final(self).value <= 6,
    {
        if !self.held {
            self.value = rng.next_face();
        }
    }
}

impl Default for Die {
    fn default() -> (d: Die)
        ensures
            d == (Die { value: 1, held: false }),
    {
        Die::new()
    }
}

/// How many entries of `s` show the face `v`.
pub open spec fn face_count(s: Seq<u8>, v: u8) -> nat
    decreases s.len(),
{
    if s.len() == 0 {
        0
    } else {
        face_count(s.drop_last(), v) + (if s.last() == v { 1nat } else { 0nat })
    }
}

/// Appending one value raises exactly that value's count by one.
pub proof fn lemma_face_count_push(s: Seq<u8>, x: u8)
    ensures
        forall|v: u8| face_count(s.push(x), v) == face_count(s, v) + (if x == v { 1nat } else { 0nat }),
{
    assert(s.push(x).drop_last() =~= s);
}

/// A face that never occurs has count zero.
pub proof fn lemma_face_count_zero(s: Seq<u8>, v: u8)
    requires
        forall|i: int| 0 <= i < s.len() ==> #[trigger] s[i] != v,
    ensures
        face_count(s, v) == 0,
    decreases s.len(),
{
    if s.len() > 0 {
        lemma_face_count_zero(s.drop_last(), v);
    }
}

/// No face occurs more often than the sequence is long.
pub proof fn lemma_face_count_le_len(s: Seq<u8>, v: u8)
    ensures
        face_count(s, v) <= s.len(),
    decreases s.len(),
{
    if s.len() > 0 {
        lemma_face_count_le_len(s.drop_last(), v);
    }
}

/// The counts of all faces below `f`, summed.
pub open spec fn sum_counts_below(s: Seq<u8>, f: u8) -> nat
    decreases f,
{
    if f <= 1 {
        0
    } else {
        sum_counts_below(s, (f - 1) as u8) + face_count(s, (f - 1) as u8)
    }
}

proof fn lemma_sum_counts_below_drop_last(s: Seq<u8>, f: u8)
    requires
        s.len() > 0,
    ensures
        sum_counts_below(s, f) == sum_counts_below(s.drop_last(), f)
            + (if 1 <= s.last() && s.last() < f { 1nat } else { 0nat }),
    decreases f,
{
    if f > 1 {
        lemma_sum_counts_below_drop_last(s, (f - 1) as u8);
    }
}

/// When every entry is a real face, the per-face counts sum to the length.
proof fn lemma_sum_counts_full(s: Seq<u8>)
    requires
        forall|i: int| 0 <= i < s.len() ==> 1 <= #[trigger] s[i] && s[i] <= 6,
    ensures
        sum_counts_below(s, 7) == s.len(),
    decreases s.len(),
{
    if s.len() == 0 {
        assert forall|v: u8| face_count(s, v) == 0 by {
            lemma_face_count_zero(s, v);
        }
        assert(sum_counts_below(s, 7) == 0) by {
            reveal_with_fuel(sum_counts_below, 8);
        }
    } else {
        assert(forall|i: int| 0 <= i < s.drop_last().len() ==> 1 <= #[trigger] s.drop_last()[i] && s.drop_last()[i] <= 6);
        lemma_sum_counts_full(s.drop_last());
        lemma_sum_counts_below_drop_last(s, 7);
    }
}

/// Count each face's occurrences; slot `v` of the result holds face `v`'s count.
fn count_faces(vals: &[u8; 5]) -> (counts: Vec<u8>)
    requires
        forall|i: int| 0 <= i < 5 ==> 1 <= #[trigger] vals@[i] && vals@[i] <= 6,
    ensures
        counts@.len() == 7,
        forall|v: u8| 1 <= v <= 6 ==> counts@[v as int] == face_count(vals@, v),
{
    let mut counts: Vec<u8> = vec![0, 0, 0, 0, 0, 0, 0];
    let mut k: usize = 0;
    while k < 5
        invariant
            k <= 5,
            counts@.len() == 7,
            forall|i: int| 0 <= i < 5 ==> 1 <= #[trigger] vals@[i] && vals@[i] <= 6,
            forall|v: u8| 1 <= v <= 6 ==> counts@[v as int] == face_count(vals@.take(k as int), v),
        decreases 5 - k,
    {
        let f = vals[k];
        proof {
            lemma_face_count_le_len(vals@.take(k as int), f);
            assert(vals@.take(k as int + 1).drop_last() =~= vals@.take(k as int));
            lemma_face_count_push(vals@.take(k as int), vals@[k as int]);
            assert(vals@.take(k as int + 1) =~= vals@.take(k as int).push(vals@[k as int]));
        }
        counts[f as usize] = counts[f as usize] + 1;
        k += 1;
    }
    proof {
        assert(vals@.take(5) =~= vals@);
    }
    counts
}

/// The five dice of one turn.
#[derive(Debug, Clone, PartialEq, Eq)]
pub struct DiceSet {
    pub dice: Vec<Die>,
}

impl DiceSet {
    /// A dice set is well formed when it holds exactly five dice, each with
    /// a real face.
    pub open spec fn wf(&self) -> bool {
        &&& self.dice@.len() == 5
        &&& forall|i: int| 0 <= i < 5 ==> die_ok(#[trigger] self.dice@[i])
    }

    /// Five fresh dice, all showing 1, none held.
    pub fn new() -> (s: DiceSet)
        ensures
            s.wf(),
            s.dice@.len() == 5,
            forall|i: int| 0 <= i < 5 ==> #[trigger] s.dice@[i] == (Die { value: 1, held: false }),
    {
        let mut dice: Vec<Die> = Vec::new();
        let mut k: usize = 0;
        while k < 5
            invariant
                k <= 5,
                dice@.len() == k,
                forall|i: int| 0 <= i < k ==> #[trigger] dice@[i] == (Die { value: 1, held: false }),
            decreases 5 - k,
        {
            dice.push(Die::new());
            k += 1;
        }
        DiceSet { dice }
    }

    /// Roll every die that is not held; held dice keep their values and all
    /// hold flags are preserved.
    pub fn roll_unheld(&mut self, rng: &mut FaceRng)
        requires
            old(self).wf(),
        ensures
            final(self).wf(),
            final(self).dice@.len() == old(self).dice@.len(),
            forall|i: int| 0 <= i < 5 ==> (#[trigger] final(self).dice@[i]).held == old(self).dice@[i].held,
            forall|i: int| 0 <= i < 5 && old(self).dice@[i].held
                ==> #[trigger] final(self).dice@[i] == old(self).dice@[i],
    {
        let mut k: usize = 0;
        while k < 5
            invariant
                k <= 5,
                self.dice@.len() == 5,
                forall|i: int| 0 <= i < 5 ==> die_ok(#[trigger] self.dice@[i]),
                forall|i: int| 0 <= i < 5 ==> (#[trigger] self.dice@[i]).held == old(self).dice@[i].held,
                forall|i: int| 0 <= i < 5 && old(self).dice@[i].held
                    ==> #[trigger] self.dice@[i] == old(self).dice@[i],
            decreases 5 - k,
        {
            let held = self.dice[k].held;
            if !held {
                let f = rng.next_face();
                self.dice[k] = Die { value: f, held: false };
            }
            k += 1;
        }
    }

    /// Set each die's hold flag from the caller's mask; values are untouched.
    pub fn set_held(&mut self, held: [bool; 5])
        requires
            old(self).wf(),
        ensures
            final(self).wf(),
            forall|i: int| 0 <= i < 5 ==> (#[trigger] final(self).dice@[i]).value == old(self).dice@[i].value,
            forall|i: int| 0 <= i < 5 ==> (#[trigger] final(self).dice@[i]).held == held@[i],
    {
        let mut k: usize = 0;
        while k < 5
            invariant
                k <= 5,
                self.dice@.len() == 5,
                forall|i: int| 0 <= i < 5 ==> die_ok(#[trigger] self.dice@[i]),
                forall|i: int| 0 <= i < 5 ==> (#[trigger] self.dice@[i]).value == old(self).dice@[i].value,
                forall|i: int| 0 <= i < k ==> (#[trigger] self.dice@[i]).held == held@[i],
                forall|i: int| k <= i < 5 ==> (#[trigger] self.dice@[i]).held == old(self).dice@[i].held,
            decreases 5 - k,
        {
            let v = self.dice[k].value;
            self.dice[k] = Die { value: v, held: held[k] };
            k += 1;
        }
    }

    /// Release every hold; values are untouched.
    pub fn release_all(&mut self)
        requires
            old(self).wf(),
        ensures
            final(self).wf(),
            forall|i: int| 0 <= i < 5 ==> (#[trigger] final(self).dice@[i]).value == old(self).dice@[i].value,
            forall|i: int| 0 <= i < 5 ==> !(#[trigger] final(self).dice@[i]).held,
    {
        let mut k: usize = 0;
        while k < 5
            invariant
                k <= 5,
                self.dice@.len() == 5,
                forall|i: int| 0 <= i < 5 ==> die_ok(#[trigger] self.dice@[i]),
                forall|i: int| 0 <= i < 5 ==> (#[trigger] self.dice@[i]).value == old(self).dice@[i].value,
                forall|i: int| 0 <= i < k ==> !(#[trigger] self.dice@[i]).held,
                forall|i: int| k <= i < 5 ==> (#[trigger] self.dice@[i]).held == old(self).dice@[i].held,
            decreases 5 - k,
        {
            let v = self.dice[k].value;
            self.dice[k] = Die { value: v, held: false };
            k += 1;
        }
    }

    /// The sequence of the five face values.
    pub open spec fn values_seq(&self) -> Seq<u8> {
        self.dice@.map_values(|d: Die| d.value)
    }

    /// The five face values, in die order.
    pub fn values(&self) -> (v: [u8; 5])
        requires
            self.wf(),
        ensures
            v@ == self.values_seq(),
            forall|i: int| 0 <= i < 5 ==> #[trigger] v@[i] == self.dice@[i].value,
    {
        let v = [
            self.dice[0].value,
            self.dice[1].value,
            self.dice[2].value,
            self.dice[3].value,
            self.dice[4].value,
        ];
        proof {
            assert(v@ =~= self.values_seq());
        }
        v
    }

    /// The five face values in ascending order; a permutation of `values`,
    /// witnessed by equal face counts.
    pub fn sorted_values(&self) -> (v: [u8; 5])
        requires
            self.wf(),
        ensures
            forall|i: int, j: int| 0 <= i <= j < 5 ==> #[trigger] v@[i] <= #[trigger] v@[j],
            forall|f: u8| face_count(v@, f) == face_count(self.values_seq(), f),
    {
        let vals = self.values();
        proof {
            assert(forall|i: int| 0 <= i < 5 ==> 1 <= #[trigger] vals@[i] && vals@[i] <= 6);
            assert forall|v: u8| !(1 <= v <= 6) implies face_count(vals@, v) == 0 by {
                lemma_face_count_zero(vals@, v);
            }
        }
        let counts = count_faces(&vals);
        let mut out: Vec<u8> = Vec::new();
        let mut f: u8 = 1;
        while f <= 6
            invariant
                1 <= f <= 7,
                counts@.len() == 7,
                forall|v: u8| 1 <= v <= 6 ==> counts@[v as int] == face_count(vals@, v),
                forall|v: u8| !(1 <= v <= 6) ==> face_count(vals@, v) == 0,
                out@.len() == sum_counts_below(vals@, f),
                forall|i: int| 0 <= i < out@.len() ==> 1 <= #[trigger] out@[i] < f,
                forall|i: int, j: int| 0 <= i <= j < out@.len() ==> #[trigger] out@[i] <= #[trigger] out@[j],
                forall|v: u8| v < f ==> face_count(out@, v) == face_count(vals@, v),
                forall|v: u8| v >= f ==> face_count(out@, v) == 0,
            decreases 7 - f,
        {
            let n = counts[f as usize];
            let mut c: u8 = 0;
            while c < n
                invariant
                    c <= n,
                    1 <= f <= 6,
                    counts@.len() == 7,
                    n == counts@[f as int],
                    forall|v: u8| 1 <= v <= 6 ==> counts@[v as int] == face_count(vals@, v),
                    forall|i: int| 0 <= i < out@.len() ==> 1 <= #[trigger] out@[i] <= f,
                    forall|i: int, j: int| 0 <= i <= j < out@.len() ==> #[trigger] out@[i] <= #[trigger] out@[j],
                    out@.len() == sum_counts_below(vals@, f) + c,
                    forall|v: u8| v < f ==> face_count(out@, v) == face_count(vals@, v),
                    face_count(out@, f) == c,
                    forall|v: u8| v > f ==> face_count(out@, v) == 0,
                decreases n - c,
            {
                let ghost before = out@;
                out.push(f);
                proof {
                    lemma_face_count_push(before, f);
                }
                c += 1;
            }
            f += 1;
        }
        proof {
            lemma_sum_counts_full(vals@);
            assert(sum_counts_below(vals@, 7) == 5);
            assert(out@.len() == 5);
        }
        let v = [out[0], out[1], out[2], out[3], out[4]];
        proof {
            assert(v@ =~= out@);
            assert forall|g: u8| face_count(v@, g) == face_count(self.values_seq(), g) by {
                if g >= 7 {
                    lemma_face_count_zero(vals@, g);
                    lemma_face_count_zero(v@, g);
                } else if g == 0 {
                    lemma_face_count_zero(vals@, g);
                    lemma_face_count_zero(v@, g);
                }
            }
        }
        v
    }
}

impl DiceSet {
    /// An element-for-element copy of this dice set.
    pub fn duplicate(&self) -> (r: DiceSet)
        ensures
            r.dice@ == self.dice@,
    {
        let mut dice: Vec<Die> = Vec::new();
        let mut k: usize = 0;
        let n = self.dice.len();
        while k < n
            invariant
                k <= n,
                n == self.dice@.len(),
                dice@ == self.dice@.take(k as int),
            decreases n - k,
        {
            dice.push(self.dice[k]);
            proof {
                assert(dice@ =~= self.dice@.take(k as int + 1));
            }
            k += 1;
        }
        proof {
            assert(self.dice@.take(n as int) =~= self.dice@);
        }
        DiceSet { dice }
    }
}

impl Default for DiceSet {
    fn default() -> (s: DiceSet)
        ensures
            s.wf(),
    {
        DiceSet::new()
    }
}

} // verus!
