//! Weighted mixing of voices into one output sample.
use vstd::prelude::*;

verus! {

/// Largest total weight a mixer accumulates.
pub const MAX_TOTAL_WEIGHT: u64 = 0xFFFF_FFFF;

/// Sum of `sample * weight` over the contributions.
pub open spec fn weighted_sum(contributions: Seq<(i16, u8)>) -> int
    decreases contributions.len(),
{
    if contributions.len() == 0 {
        0
    } else {
        let last = contributions.last();
        weighted_sum(contributions.drop_last()) + last.0 * last.1
    }
}

/// Sum of the weights of the contributions.
pub open spec fn total_weight(contributions: Seq<(i16, u8)>) -> int
    decreases contributions.len(),
{
    if contributions.len() == 0 {
        0
    } else {
        total_weight(contributions.drop_last()) + contributions.last().1
    }
}

/// `x / d`, rounded toward zero.
pub open spec fn div_toward_zero(x: int, d: int) -> int {
    if x >= 0 {
        x / d
    } else {
        -((-x) / d)
    }
}

/// The mixed output: the weighted sum divided by the attenuation, rounded
/// toward zero.
pub open spec fn mixed(contributions: Seq<(i16, u8)>, attenuation: int) -> int {
    div_toward_zero(weighted_sum(contributions), attenuation)
}

proof fn lemma_sum_bounds(contributions: Seq<(i16, u8)>)
    ensures
        0 <= total_weight(contributions),
        -32768 * total_weight(contributions) <= weighted_sum(contributions) <= 32767 * total_weight(
            contributions,
        ),
    decreases contributions.len(),
{
    if contributions.len() > 0 {
        let last = contributions.last();
        lemma_sum_bounds(contributions.drop_last());
        assert(-32768 * last.1 <= last.0 * last.1 <= 32767 * last.1) by (nonlinear_arith)
            requires
                -32768 <= last.0 <= 32767,
                0 <= last.1,
        ;
    }
}

/// Mixing is a weighted sum: adding contributions adds their weighted sums and
/// their weights, whatever was there before.
pub proof fn lemma_mix_linear(a: Seq<(i16, u8)>, b: Seq<(i16, u8)>)
    ensures
        weighted_sum(a + b) == weighted_sum(a) + weighted_sum(b),
        total_weight(a + b) == total_weight(a) + total_weight(b),
    decreases b.len(),
{
    if b.len() > 0 {
        lemma_mix_linear(a, b.drop_last());
        assert((a + b).drop_last() =~= a + b.drop_last());
        assert((a + b).last() == b.last());
    }
}

/// When the weights add up to no more than the attenuation, the mixed output
/// lies in the sample range, even with every voice at full amplitude.
pub proof fn lemma_mix_bounded(contributions: Seq<(i16, u8)>, attenuation: int)
    requires
        0 < attenuation,
        total_weight(contributions) <= attenuation,
    ensures
        -32768 <= mixed(contributions, attenuation) <= 32767,
{
    let s = weighted_sum(contributions);
    let w = total_weight(contributions);
    lemma_sum_bounds(contributions);
    assert(-32768 * attenuation <= s <= 32767 * attenuation) by (nonlinear_arith)
        requires
            -32768 * w <= s <= 32767 * w,
            0 <= w <= attenuation,
    ;
    if s >= 0 {
        vstd::arithmetic::div_mod::lemma_div_is_ordered(s, 32767 * attenuation, attenuation);
        vstd::arithmetic::div_mod::lemma_div_multiples_vanish(32767, attenuation);
        vstd::arithmetic::div_mod::lemma_div_pos_is_pos(s, attenuation);
    } else {
        vstd::arithmetic::div_mod::lemma_div_is_ordered(-s, 32768 * attenuation, attenuation);
        vstd::arithmetic::div_mod::lemma_div_multiples_vanish(32768, attenuation);
        vstd::arithmetic::div_mod::lemma_div_pos_is_pos(-s, attenuation);
    }
}

/// Accumulates weighted samples of several voices.
pub struct Mixer {
    sum: i64,
    weight: u64,
    contributions: Ghost<Seq<(i16, u8)>>,
}

impl View for Mixer {
    type V = Seq<(i16, u8)>;

    closed spec fn view(&self) -> Seq<(i16, u8)> {
        self.contributions@
    }
}

impl Mixer {
    /// The running sums agree with the contributions, and the weight is within bounds.
    pub closed spec fn wf(&self) -> bool {
        &&& self.sum == weighted_sum(self@)
        &&& self.weight == total_weight(self@)
        &&& self.weight <= MAX_TOTAL_WEIGHT
    }

    /// A mixer with no contributions.
    pub fn new() -> (r: Self)
        ensures
            r.wf(),
            r@ == Seq::<(i16, u8)>::empty(),
    {
        Mixer { sum: 0, weight: 0, contributions: Ghost(Seq::empty()) }
    }

    /// Adds `sample` with `weight`.
    pub fn add(self, sample: i16, weight: u8) -> (r: Self)
        requires
            self.wf(),
            total_weight(self@) + weight <= MAX_TOTAL_WEIGHT,
        ensures
            r.wf(),
            r@ == self@.push((sample, weight)),
    {
        let ghost next = self@.push((sample, weight));
        proof {
            assert(next.drop_last() =~= self@);
            lemma_sum_bounds(self@);
            assert(-32768 * 0xFFFF_FFFFint <= weighted_sum(next) <= 32767 * 0xFFFF_FFFFint) by {
                lemma_sum_bounds(next);
            }
        }
        Mixer {
            sum: self.sum + sample as i64 * weight as i64,
            weight: self.weight + weight as u64,
            contributions: Ghost(next),
        }
    }

    /// The total weight added so far.
    pub fn total_weight(&self) -> (r: u64)
        requires
            self.wf(),
        ensures
            r == total_weight(self@),
    {
        self.weight
    }

    /// The weighted sum divided by `attenuation`, rounded toward zero. The
    /// attenuation must be at least the total weight, so that the result fits a
    /// sample whatever the voices played.
    pub fn finish(self, attenuation: u32) -> (r: i16)
        requires
            self.wf(),
            0 < attenuation,
            total_weight(self@) <= attenuation,
        ensures
            r == mixed(self@, attenuation as int),
    {
        proof {
            lemma_mix_bounded(self@, attenuation as int);
        }
        if self.sum >= 0 {
            (self.sum / attenuation as i64) as i16
        } else {
            proof {
                lemma_sum_bounds(self@);
            }
            -((-self.sum) / attenuation as i64) as i16
        }
    }
}

} // verus!
