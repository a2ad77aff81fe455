//! The per-kind-pair parameter table.
//!
//! From a configuration and a sequence of raw random words, generation
//! produces one color per kind, a signed attraction for every ordered pair
//! of kinds, and a repel-distance / influence-radius pair for every
//! unordered pair, stored triangularly.  The derived invariant
//! `influence_radius >= repel_distance >= DIAMETER` is re-established by
//! clamping regardless of what was sampled.

use vstd::prelude::*;
use vstd::arithmetic::div_mod::lemma_fundamental_div_mod_converse;
use vstd::arithmetic::mul::lemma_mul_upper_bound;
use vstd::arithmetic::mul::lemma_mul_nonnegative;
use vstd::arithmetic::mul::lemma_mul_inequality;
use crate::fx::FX_MAX;
use crate::fx::SCALE;
use crate::fx::fx_abs;
use crate::fx::fx_max;
use crate::fx::fx_neg;
use crate::fx::spec_abs;
use crate::fx::spec_neg;
use crate::rng::NORMAL_DRAWS;
use crate::rng::normal_sample;
use crate::rng::spec_normal;
use crate::rng::spec_uniform;
use crate::rng::uniform_sample;
use crate::settings::MAX_KINDS;
use crate::settings::Settings;
use crate::settings::SimError;
use crate::sim::DIAMETER;

verus! {

/// The symmetric properties of two kinds of particles.
#[derive(Clone, Copy, Debug, PartialEq, Eq, Structural)]
pub struct PairProps {
    /// The distance below which particles begin to unconditionally repel
    /// each other.
    pub repel_distance: i64,
    /// The distance above which particles have no influence on each other.
    pub influence_radius: i64,
}

/// A kind's display color, as fixed-point hue (degrees), saturation and
/// value.
#[derive(Clone, Copy, Debug, PartialEq, Eq, Structural)]
pub struct Color {
    pub hue: i64,
    pub saturation: i64,
    pub value: i64,
}

/// Number of entries of the triangular table that precede row `i`.
pub open spec fn tri_row(i: int) -> int
    decreases i,
{
    if i <= 0 {
        0
    } else {
        tri_row(i - 1) + i
    }
}

/// Index of the unordered pair `(i, j)` with `j <= i` in the triangular
/// table.
pub open spec fn tri(i: int, j: int) -> int {
    tri_row(i) + j
}

/// `tri_row` matches the closed form `i * (i + 1) / 2`.
pub proof fn lemma_tri_row_value(i: int)
    requires
        i >= 0,
    ensures
        2 * tri_row(i) == i * (i + 1),
    decreases i,
{
    if i == 0 {
    } else {
        lemma_tri_row_value(i - 1);
        assert((i - 1) * i + 2 * i == i * (i + 1)) by (nonlinear_arith);
    }
}

/// `tri_row` grows with its argument.
pub proof fn lemma_tri_row_monotonic(i: int, j: int)
    requires
        0 <= i <= j,
    ensures
        tri_row(i) <= tri_row(j),
    decreases j,
{
    if i < j {
        lemma_tri_row_monotonic(i, j - 1);
    }
}

/// Raw words consumed per ordered kind pair for one attraction sample.
pub open spec fn attr_base(kinds: int, i: int, j: int) -> int {
    (i * kinds + j) * (NORMAL_DRAWS as int)
}

/// Raw-word index of the repel-distance sample of the unordered pair
/// `(i, j)`; the influence-radius sample follows it.
pub open spec fn props_base(kinds: int, i: int, j: int) -> int {
    (NORMAL_DRAWS as int) * (kinds * kinds) + 2 * tri(i, j)
}

/// Raw words consumed to generate a whole table for `kinds` kinds.
pub open spec fn table_entropy(kinds: int) -> int {
    (NORMAL_DRAWS as int) * (kinds * kinds) + 2 * tri_row(kinds)
}

/// The attraction of ordered pair `(i, j)` determined by the raw words:
/// a sample from the configured normal distribution, forced non-positive on
/// the diagonal.
pub open spec fn spec_attr_value(s: Settings, e: Seq<u64>, i: int, j: int) -> int {
    let v = spec_normal(
        e,
        attr_base(s.kinds as int, i, j),
        s.attract_mean as int,
        s.attract_std as int,
    );
    if i == j {
        spec_neg(spec_abs(v))
    } else {
        v
    }
}

/// The repel distance of unordered pair `(i, j)` (with `j <= i`): the
/// diameter exactly on the diagonal, otherwise a uniform sample clamped up
/// to the diameter.
pub open spec fn spec_repel_value(s: Settings, e: Seq<u64>, i: int, j: int) -> int {
    if i == j {
        DIAMETER as int
    } else {
        let u = spec_uniform(
            s.minr_lower as int,
            s.minr_upper as int,
            e[props_base(s.kinds as int, i, j)],
        );
        if u >= DIAMETER as int {
            u
        } else {
            DIAMETER as int
        }
    }
}

/// The influence radius of unordered pair `(i, j)` (with `j <= i`): a
/// uniform sample clamped up to the pair's repel distance.
pub open spec fn spec_influence_value(s: Settings, e: Seq<u64>, i: int, j: int) -> int {
    let rd = spec_repel_value(s, e, i, j);
    let u = spec_uniform(
        s.maxr_lower as int,
        s.maxr_upper as int,
        e[props_base(s.kinds as int, i, j) + 1],
    );
    if u >= rd {
        u
    } else {
        rd
    }
}

/// The color of kind `i`: hues evenly spaced around the color wheel,
/// alternating two brightness levels.
pub open spec fn spec_color_value(kinds: int, i: int) -> Color
    recommends
        kinds > 0,
{
    Color {
        hue: (((360 * (SCALE as int)) / kinds) * i) as i64,
        saturation: SCALE,
        value: if i % 2 == 0 {
            500_000i64
        } else {
            SCALE
        },
    }
}

/// Bounds on one entry of the symmetric table.
pub open spec fn prop_ok(p: PairProps) -> bool {
    DIAMETER <= p.repel_distance <= p.influence_radius <= FX_MAX
}

/// The table generated from settings `s` and raw words `e`, pinned entry by
/// entry.
pub open spec fn table_matches(t: ParticleKinds, s: Settings, e: Seq<u64>) -> bool {
    &&& t.wf()
    &&& t.kinds == s.kinds
    &&& forall|i: int, j: int|
        0 <= i < s.kinds && 0 <= j < s.kinds ==> #[trigger] t.spec_attraction(i, j)
            == spec_attr_value(s, e, i, j)
    &&& forall|i: int, j: int|
        0 <= j <= i < s.kinds ==> (#[trigger] t.spec_props(i, j)).repel_distance as int
            == spec_repel_value(s, e, i, j)
    &&& forall|i: int, j: int|
        0 <= j <= i < s.kinds ==> (#[trigger] t.spec_props(i, j)).influence_radius as int
            == spec_influence_value(s, e, i, j)
    &&& forall|i: int| 0 <= i < s.kinds ==> t.colors[i] == spec_color_value(s.kinds as int, i)
}

/// The number of raw words a table for `kinds` kinds consumes, executed.
pub fn table_entropy_amount(kinds: usize) -> (r: usize)
    requires
        1 <= kinds <= MAX_KINDS,
    ensures
        r as int == table_entropy(kinds as int),
        r <= 300_000_000,
{
    proof {
        lemma_mul_upper_bound(kinds as int, MAX_KINDS as int, kinds as int, MAX_KINDS as int);
        lemma_mul_nonnegative(kinds as int, kinds as int);
        lemma_tri_row_value(kinds as int);
        lemma_mul_nonnegative(kinds as int, kinds as int + 1);
        lemma_mul_upper_bound(
            kinds as int,
            MAX_KINDS as int,
            kinds as int + 1,
            MAX_KINDS as int + 1,
        );
    }
    NORMAL_DRAWS * (kinds * kinds) + 2 * (kinds * (kinds + 1) / 2)
}

/// The per-kind-pair parameters of one simulation round.
pub struct ParticleKinds {
    pub kinds: usize,
    pub colors: Vec<Color>,
    pub attractions: Vec<i64>,
    pub symmetric_properties: Vec<PairProps>,
}

impl ParticleKinds {
    /// The attraction of the ordered pair `(i, j)`.
    pub open spec fn spec_attraction(&self, i: int, j: int) -> int {
        self.attractions[i * (self.kinds as int) + j] as int
    }

    /// The symmetric properties of the pair `(i, j)`, in either order.
    pub open spec fn spec_props(&self, i: int, j: int) -> PairProps {
        if j <= i {
            self.symmetric_properties[tri(i, j)]
        } else {
            self.symmetric_properties[tri(j, i)]
        }
    }

    /// Well-formedness: the table has the right shape, every symmetric
    /// entry satisfies `influence_radius >= repel_distance >= DIAMETER`,
    /// the diagonal repel distance is exactly the diameter, and diagonal
    /// attractions are non-positive.
    pub open spec fn wf(&self) -> bool {
        &&& 1 <= self.kinds <= MAX_KINDS
        &&& self.colors.len() == self.kinds
        &&& self.attractions.len() == (self.kinds as int) * (self.kinds as int)
        &&& self.symmetric_properties.len() == tri_row(self.kinds as int)
        &&& forall|i: int, j: int|
            0 <= i < self.kinds && 0 <= j < self.kinds ==> prop_ok(#[trigger] self.spec_props(i, j))
        &&& forall|i: int|
            0 <= i < self.kinds ==> (#[trigger] self.spec_props(i, i)).repel_distance == DIAMETER
        &&& forall|i: int| 0 <= i < self.kinds ==> #[trigger] self.spec_attraction(i, i) <= 0
        &&& forall|i: int, j: int|
            0 <= i < self.kinds && 0 <= j < self.kinds ==> -FX_MAX
                <= #[trigger] self.spec_attraction(i, j) <= FX_MAX
    }

    /// Look up the attraction of the ordered pair `(i, j)`.
    pub fn attraction_at(&self, i: usize, j: usize) -> (r: i64)
        requires
            self.wf(),
            i < self.kinds,
            j < self.kinds,
        ensures
            r as int == self.spec_attraction(i as int, j as int),
    {
        proof {
            lemma_mul_upper_bound(i as int, MAX_KINDS as int - 1, self.kinds as int, MAX_KINDS as int);
            lemma_mul_nonnegative(i as int, self.kinds as int);
            assert((i as int) * (self.kinds as int) + (j as int) < (self.kinds as int) * (
            self.kinds as int)) by (nonlinear_arith)
                requires
                    0 <= (i as int) < (self.kinds as int),
                    0 <= (j as int) < (self.kinds as int),
            ;
        }
        self.attractions[i * self.kinds + j]
    }

    /// Look up the symmetric properties of the pair `(i, j)`, in either
    /// order.
    pub fn props_at(&self, i: usize, j: usize) -> (r: PairProps)
        requires
            self.wf(),
            i < self.kinds,
            j < self.kinds,
        ensures
            r == self.spec_props(i as int, j as int),
            prop_ok(r),
    {
        let (hi, lo) = if j <= i {
            (i, j)
        } else {
            (j, i)
        };
        proof {
            lemma_mul_upper_bound(hi as int, MAX_KINDS as int - 1, hi as int + 1, MAX_KINDS as int);
            lemma_mul_nonnegative(hi as int, hi as int + 1);
            lemma_tri_row_value(hi as int);
            lemma_props_base_bound(self.kinds as int, hi as int, lo as int);
        }
        let idx = (hi * (hi + 1)) / 2 + lo;
        let r = self.symmetric_properties[idx];
        proof {
            assert(r == self.spec_props(i as int, j as int));
            assert(prop_ok(r));
        }
        r
    }

    /// Generate a table from the configuration and the raw words `e`.
    ///
    /// Succeeds exactly when the kind count is accepted and enough raw
    /// words were supplied; the result is then a pure function of
    /// `(s, e)`, pinned entry by entry.
    pub fn random(s: &Settings, e: &Vec<u64>) -> (r: Result<ParticleKinds, SimError>)
        requires
            s.ranges_ok(),
        ensures
            r is Ok <==> (1 <= s.kinds <= MAX_KINDS && e.len() >= table_entropy(s.kinds as int)),
            match r {
                Ok(t) => table_matches(t, *s, e@),
                Err(SimError::InvalidKindCount) => s.kinds == 0,
                Err(SimError::TooManyKinds) => s.kinds > MAX_KINDS,
                Err(SimError::InsufficientEntropy) => 1 <= s.kinds <= MAX_KINDS && e.len()
                    < table_entropy(s.kinds as int),
                Err(_) => false,
            },
    {
        if s.kinds == 0 {
            return Err(SimError::InvalidKindCount);
        }
        if s.kinds > MAX_KINDS {
            return Err(SimError::TooManyKinds);
        }
        let k = s.kinds;
        proof {
            lemma_mul_upper_bound(k as int, MAX_KINDS as int, k as int, MAX_KINDS as int);
            lemma_mul_nonnegative(k as int, k as int);
            lemma_tri_row_value(k as int);
            lemma_mul_nonnegative(k as int, k as int + 1);
            lemma_mul_upper_bound(k as int, MAX_KINDS as int, k as int + 1, MAX_KINDS as int + 1);
        }
        let pair_words = k * (k + 1) / 2;
        let needed = NORMAL_DRAWS * (k * k) + 2 * pair_words;
        proof {
            assert(pair_words == tri_row(k as int));
            assert(needed == table_entropy(k as int));
        }
        if e.len() < needed {
            return Err(SimError::InsufficientEntropy);
        }

        let mut colors: Vec<Color> = Vec::new();
        let mut attractions: Vec<i64> = Vec::new();
        let mut symmetric_properties: Vec<PairProps> = Vec::new();

        let angle = ((360u64 * (SCALE as u64)) / (k as u64)) as i64;
        let ghost se = *s;
        let ghost ee = e@;

        let mut i: usize = 0;
        while i < k
            invariant
                se == *s,
                ee == e@,
                s.ranges_ok(),
                1 <= k <= MAX_KINDS,
                k == s.kinds,
                i <= k,
                e.len() >= table_entropy(k as int),
                angle == (360 * (SCALE as int)) / (k as int),
                colors.len() == i,
                attractions.len() == (i as int) * (k as int),
                symmetric_properties.len() == tri_row(i as int),
                forall|m: int|
                    0 <= m < colors.len() ==> colors[m] == spec_color_value(k as int, m),
                forall|a: int, b: int|
                    0 <= a < i && 0 <= b < k ==> #[trigger] spec_attr_value(se, ee, a, b)
                        == attractions[a * (k as int) + b] as int,
                forall|a: int, b: int|
                    0 <= b <= a < i ==> #[trigger] symmetric_properties[tri(a, b)].repel_distance
                        as int == spec_repel_value(se, ee, a, b),
                forall|a: int, b: int|
                    0 <= b <= a < i ==> #[trigger] symmetric_properties[tri(a, b)].influence_radius
                        as int == spec_influence_value(se, ee, a, b),
            decreases k - i,
        {
            let value: i64 = if i % 2 == 0 {
                500_000
            } else {
                SCALE
            };
            proof {
                vstd::arithmetic::div_mod::lemma_div_nonincreasing(360_000_000, k as int);
                vstd::arithmetic::div_mod::lemma_div_pos_is_pos(360_000_000, k as int);
                lemma_mul_magnitude_helper(angle as int, i as int);
            }
            colors.push(
                Color { hue: angle * (i as i64), saturation: SCALE, value },
            );

            proof {
                let ki = k as int;
                let ii = i as int;
                assert forall|a2: int, b2: int|
                    0 <= a2 < ki && 0 <= b2 < ki && a2 * ki + b2 < attractions.len() implies
                    #[trigger] spec_attr_value(se, ee, a2, b2) == attractions[a2 * ki
                    + b2] as int by {
                    if a2 >= ii {
                        lemma_mul_inequality(ii, a2, ki);
                    }
                }
                assert forall|a2: int, b2: int|
                    0 <= b2 <= a2 && a2 < ki && tri(a2, b2) < symmetric_properties.len() implies
                    #[trigger] symmetric_properties[tri(a2, b2)].repel_distance as int
                    == spec_repel_value(se, ee, a2, b2) by {
                    if a2 >= ii {
                        lemma_tri_row_monotonic(ii, a2);
                    }
                }
                assert forall|a2: int, b2: int|
                    0 <= b2 <= a2 && a2 < ki && tri(a2, b2) < symmetric_properties.len() implies
                    #[trigger] symmetric_properties[tri(a2, b2)].influence_radius as int
                    == spec_influence_value(se, ee, a2, b2) by {
                    if a2 >= ii {
                        lemma_tri_row_monotonic(ii, a2);
                    }
                }
            }
            let mut j: usize = 0;
            while j < k
                invariant
                    se == *s,
                    ee == e@,
                    s.ranges_ok(),
                    1 <= k <= MAX_KINDS,
                    k == s.kinds,
                    i < k,
                    j <= k,
                    e.len() >= table_entropy(k as int),
                    colors.len() == i + 1,
                    attractions.len() == (i as int) * (k as int) + j,
                    symmetric_properties.len() == if j <= i {
                        tri(i as int, j as int)
                    } else {
                        tri_row(i as int + 1)
                    },
                    forall|m: int|
                        0 <= m < colors.len() ==> colors[m] == spec_color_value(k as int, m),
                    forall|a: int, b: int|
                        0 <= a < k && 0 <= b < k && a * (k as int) + b < attractions.len()
                            ==> #[trigger] spec_attr_value(se, ee, a, b)
                            == attractions[a * (k as int) + b] as int,
                    forall|a: int, b: int|
                        0 <= b <= a && tri(a, b) < symmetric_properties.len() && a < k
                            ==> #[trigger] symmetric_properties[tri(a, b)].repel_distance as int
                            == spec_repel_value(se, ee, a, b),
                    forall|a: int, b: int|
                        0 <= b <= a && tri(a, b) < symmetric_properties.len() && a < k
                            ==> #[trigger] symmetric_properties[tri(a, b)].influence_radius as int
                            == spec_influence_value(se, ee, a, b),
                decreases k - j,
            {
                proof {
                    lemma_mul_upper_bound(i as int, MAX_KINDS as int - 1, k as int, MAX_KINDS as int);
                    lemma_mul_nonnegative(i as int, k as int);
                    lemma_mul_upper_bound(k as int, MAX_KINDS as int, k as int, MAX_KINDS as int);
                    lemma_mul_nonnegative(k as int, k as int);
                    lemma_attr_base_bound(k as int, i as int, j as int);
                    lemma_tri_row_value(k as int);
                    lemma_mul_upper_bound(
                        k as int,
                        MAX_KINDS as int,
                        k as int + 1,
                        MAX_KINDS as int + 1,
                    );
                    lemma_mul_nonnegative(k as int, k as int + 1);
                }
                let base = (i * k + j) * NORMAL_DRAWS;
                let v = normal_sample(e, base, s.attract_mean, s.attract_std);
                let attr = if i == j {
                    fx_neg(fx_abs(v))
                } else {
                    v
                };
                attractions.push(attr);

                if j <= i {
                    proof {
                        lemma_props_base_bound(k as int, i as int, j as int);
                    }
                    let rb = NORMAL_DRAWS * (k * k) + 2 * (symmetric_properties.len());
                    proof {
                        assert(rb == props_base(k as int, i as int, j as int));
                    }
                    let repel = if i == j {
                        DIAMETER
                    } else {
                        fx_max(uniform_sample(s.minr_lower, s.minr_upper, e[rb]), DIAMETER)
                    };
                    let influence = fx_max(
                        uniform_sample(s.maxr_lower, s.maxr_upper, e[rb + 1]),
                        repel,
                    );
                    let ghost prior_props = symmetric_properties@;
                    symmetric_properties.push(
                        PairProps { repel_distance: repel, influence_radius: influence },
                    );
                    proof {
                        let ki = k as int;
                        let ii = i as int;
                        let ji = j as int;
                        assert(symmetric_properties[tri(ii, ji)].repel_distance == repel);
                        assert(repel as int == spec_repel_value(se, ee, ii, ji));
                        assert(influence as int == spec_influence_value(se, ee, ii, ji));
                        assert forall|a2: int, b2: int|
                            0 <= b2 <= a2 && a2 < ki && tri(a2, b2)
                            < symmetric_properties.len() implies
                            #[trigger] symmetric_properties[tri(a2, b2)].repel_distance as int
                            == spec_repel_value(se, ee, a2, b2) by {
                            if tri(a2, b2) == tri(ii, ji) {
                                lemma_tri_injective(a2, b2, ii, ji);
                            } else if a2 > ii {
                                lemma_tri_row_monotonic(ii + 1, a2);
                            } else {
                                assert(tri(a2, b2) < prior_props.len());
                                lemma_tri_row_monotonic(0, a2);
                                assert(symmetric_properties@[tri(a2, b2)] == prior_props[tri(
                                    a2,
                                    b2,
                                )]);
                            }
                        }
                        assert forall|a2: int, b2: int|
                            0 <= b2 <= a2 && a2 < ki && tri(a2, b2)
                            < symmetric_properties.len() implies
                            #[trigger] symmetric_properties[tri(a2, b2)].influence_radius as int
                            == spec_influence_value(se, ee, a2, b2) by {
                            if tri(a2, b2) == tri(ii, ji) {
                                lemma_tri_injective(a2, b2, ii, ji);
                            } else if a2 > ii {
                                lemma_tri_row_monotonic(ii + 1, a2);
                            } else {
                                assert(tri(a2, b2) < prior_props.len());
                                lemma_tri_row_monotonic(0, a2);
                                assert(symmetric_properties@[tri(a2, b2)] == prior_props[tri(
                                    a2,
                                    b2,
                                )]);
                            }
                        }
                    }
                }
                proof {
                    let ki = k as int;
                    let ii = i as int;
                    let ji = j as int;
                    assert forall|a2: int, b2: int|
                        0 <= a2 < ki && 0 <= b2 < ki && a2 * ki + b2 < attractions.len() implies
                        #[trigger] spec_attr_value(se, ee, a2, b2) == attractions[a2 * ki
                        + b2] as int by {
                        if a2 * ki + b2 == ii * ki + ji {
                            lemma_flat_index_injective(ki, a2, b2, ii, ji);
                        }
                    }
                }
                j = j + 1;
            }
            proof {
                let ki = k as int;
                let ii = i as int;
                vstd::arithmetic::mul::lemma_mul_is_distributive_add_other_way(ki, ii, 1);
                assert(attractions.len() == (ii + 1) * ki);
                assert forall|a2: int, b2: int|
                    0 <= a2 < ii + 1 && 0 <= b2 < ki implies #[trigger] spec_attr_value(
                    se,
                    ee,
                    a2,
                    b2,
                ) == attractions[a2 * ki + b2] as int by {
                    lemma_mul_inequality(a2, ii, ki);
                }
                assert forall|a2: int, b2: int|
                    0 <= b2 <= a2 < ii + 1 implies #[trigger] symmetric_properties[tri(
                    a2,
                    b2,
                )].repel_distance as int == spec_repel_value(se, ee, a2, b2) by {
                    lemma_tri_row_monotonic(a2 + 1, ii + 1);
                }
                assert forall|a2: int, b2: int|
                    0 <= b2 <= a2 < ii + 1 implies #[trigger] symmetric_properties[tri(
                    a2,
                    b2,
                )].influence_radius as int == spec_influence_value(se, ee, a2, b2) by {
                    lemma_tri_row_monotonic(a2 + 1, ii + 1);
                }
            }
            i = i + 1;
        }

        let t = ParticleKinds { kinds: k, colors, attractions, symmetric_properties };
        proof {
            lemma_table_wf(&t, se, ee);
        }
        Ok(t)
    }
}

/// Helper: the hue product stays within the fixed-point range.
proof fn lemma_mul_magnitude_helper(angle: int, i: int)
    requires
        0 <= angle <= 360_000_000,
        0 <= i < MAX_KINDS,
    ensures
        0 <= angle * i <= FX_MAX,
{
    lemma_mul_nonnegative(angle, i);
    lemma_mul_upper_bound(angle, 360_000_000, i, MAX_KINDS as int - 1);
}

/// Helper: the raw-word index of an attraction sample is within the table's
/// budget.
proof fn lemma_attr_base_bound(k: int, i: int, j: int)
    requires
        1 <= k <= MAX_KINDS,
        0 <= i < k,
        0 <= j < k,
    ensures
        0 <= (i * k + j) * (NORMAL_DRAWS as int),
        (i * k + j) * (NORMAL_DRAWS as int) + (NORMAL_DRAWS as int) <= (NORMAL_DRAWS as int) * (k
            * k),
        (NORMAL_DRAWS as int) * (k * k) <= table_entropy(k),
{
    lemma_mul_nonnegative(i, k);
    lemma_mul_nonnegative(i * k + j, NORMAL_DRAWS as int);
    assert((i * k + j) * 12 + 12 <= 12 * (k * k)) by (nonlinear_arith)
        requires
            0 <= i < k,
            0 <= j < k,
    ;
    lemma_tri_row_value(k);
    lemma_mul_nonnegative(k, k + 1);
}

/// Helper: the raw-word indices of a symmetric-pair sample are within the
/// table's budget.
proof fn lemma_props_base_bound(k: int, i: int, j: int)
    requires
        1 <= k <= MAX_KINDS,
        0 <= j <= i < k,
    ensures
        0 <= tri(i, j),
        props_base(k, i, j) + 1 < table_entropy(k),
        tri(i, j) == tri_row(i) + j,
        tri_row(i) + j < tri_row(k),
{
    lemma_tri_row_monotonic(0, i);
    lemma_tri_row_monotonic(i + 1, k);
    assert(tri_row(i + 1) == tri_row(i) + i + 1);
    assert(tri(i, j) < tri_row(k));
}

/// Helper: the flat index `i * k + j` determines the ordered pair.
proof fn lemma_flat_index_injective(k: int, a: int, b: int, i: int, j: int)
    requires
        k > 0,
        0 <= a < k,
        0 <= b < k,
        0 <= i < k,
        0 <= j < k,
        a * k + b == i * k + j,
    ensures
        a == i && b == j,
{
    lemma_fundamental_div_mod_converse(a * k + b, k, a, b);
    lemma_fundamental_div_mod_converse(i * k + j, k, i, j);
}

/// Helper: the triangular index determines the unordered pair.
proof fn lemma_tri_injective(a: int, b: int, i: int, j: int)
    requires
        0 <= b <= a,
        0 <= j <= i,
        tri(a, b) == tri(i, j),
    ensures
        a == i && b == j,
{
    if a < i {
        lemma_tri_row_monotonic(a + 1, i);
        assert(tri_row(a + 1) == tri_row(a) + a + 1);
        assert(false);
    }
    if i < a {
        lemma_tri_row_monotonic(i + 1, a);
        assert(tri_row(i + 1) == tri_row(i) + i + 1);
        assert(false);
    }
}

/// Helper: a table built with matching entries is well formed.
proof fn lemma_table_wf(t: &ParticleKinds, s: Settings, e: Seq<u64>)
    requires
        s.ranges_ok(),
        1 <= t.kinds <= MAX_KINDS,
        t.kinds == s.kinds,
        t.colors.len() == t.kinds,
        t.attractions.len() == (t.kinds as int) * (t.kinds as int),
        t.symmetric_properties.len() == tri_row(t.kinds as int),
        forall|a: int, b: int|
            0 <= a < t.kinds && 0 <= b < t.kinds ==> t.attractions[a * (t.kinds as int) + b] as int
                == spec_attr_value(s, e, a, b),
        forall|a: int, b: int|
            0 <= b <= a < t.kinds ==> #[trigger] t.symmetric_properties[tri(a, b)].repel_distance
                as int == spec_repel_value(s, e, a, b),
        forall|a: int, b: int|
            0 <= b <= a < t.kinds ==> #[trigger] t.symmetric_properties[tri(a, b)].influence_radius
                as int == spec_influence_value(s, e, a, b),
    ensures
        t.wf(),
        forall|i: int, j: int|
            0 <= i < t.kinds && 0 <= j < t.kinds ==> #[trigger] t.spec_attraction(i, j)
                == spec_attr_value(s, e, i, j),
        forall|i: int, j: int|
            0 <= j <= i < t.kinds ==> (#[trigger] t.spec_props(i, j)).repel_distance as int
                == spec_repel_value(s, e, i, j),
        forall|i: int, j: int|
            0 <= j <= i < t.kinds ==> (#[trigger] t.spec_props(i, j)).influence_radius as int
                == spec_influence_value(s, e, i, j),
{
    let k = t.kinds as int;
    assert forall|i: int, j: int|
        0 <= i < k && 0 <= j < k implies #[trigger] t.spec_attraction(i, j) == spec_attr_value(
        s,
        e,
        i,
        j,
    ) by {
        assert(t.attractions[i * k + j] as int == spec_attr_value(s, e, i, j));
    }
    assert forall|i: int, j: int|
        0 <= i < k && 0 <= j < k implies prop_ok(#[trigger] t.spec_props(i, j)) by {
        if j <= i {
            lemma_props_base_bound(k, i, j);
            lemma_repel_influence_bounds(s, e, i, j);
        } else {
            lemma_props_base_bound(k, j, i);
            lemma_repel_influence_bounds(s, e, j, i);
        }
    }
    assert forall|i: int| 0 <= i < k implies (#[trigger] t.spec_props(i, i)).repel_distance
        == DIAMETER by {
        lemma_props_base_bound(k, i, i);
    }
    assert forall|i: int| 0 <= i < k implies #[trigger] t.spec_attraction(i, i) <= 0 by {
        assert(t.spec_attraction(i, i) == spec_attr_value(s, e, i, i));
    }
    assert forall|i: int, j: int|
        0 <= i < k && 0 <= j < k implies -FX_MAX <= #[trigger] t.spec_attraction(i, j)
        <= FX_MAX by {
        assert(t.spec_attraction(i, j) == spec_attr_value(s, e, i, j));
    }
}

/// Helper: the sampled pair values respect the derived invariant.
proof fn lemma_repel_influence_bounds(s: Settings, e: Seq<u64>, i: int, j: int)
    requires
        s.ranges_ok(),
        0 <= j <= i,
    ensures
        DIAMETER <= spec_repel_value(s, e, i, j),
        spec_repel_value(s, e, i, j) <= spec_influence_value(s, e, i, j),
        spec_influence_value(s, e, i, j) <= FX_MAX,
{
}

/// Law: in every generated table, each kind pair's influence radius is at
/// least its repel distance, which is itself non-negative, and the repel
/// distance of a kind with itself is exactly the particle diameter.
pub proof fn lemma_pair_invariants(t: &ParticleKinds)
    requires
        t.wf(),
    ensures
        forall|i: int, j: int|
            0 <= i < t.kinds && 0 <= j < t.kinds ==> (#[trigger] t.spec_props(i, j)).influence_radius
                >= t.spec_props(i, j).repel_distance >= 0,
        forall|i: int|
            0 <= i < t.kinds ==> (#[trigger] t.spec_props(i, i)).repel_distance == DIAMETER,
{
    assert forall|i: int, j: int|
        0 <= i < t.kinds && 0 <= j < t.kinds implies (#[trigger] t.spec_props(i, j)).influence_radius
        >= t.spec_props(i, j).repel_distance >= 0 by {
        assert(prop_ok(t.spec_props(i, j)));
    }
}

/// Law: table generation is deterministic.  Two tables that both match the
/// same configuration and the same raw words agree on every color, every
/// attraction and every symmetric pair.
pub proof fn lemma_generation_deterministic(
    t1: &ParticleKinds,
    t2: &ParticleKinds,
    s: Settings,
    e: Seq<u64>,
)
    requires
        table_matches(*t1, s, e),
        table_matches(*t2, s, e),
    ensures
        t1.kinds == t2.kinds,
        forall|i: int, j: int|
            0 <= i < s.kinds && 0 <= j < s.kinds ==> #[trigger] t1.spec_attraction(i, j)
                == t2.spec_attraction(i, j),
        forall|i: int, j: int|
            0 <= i < s.kinds && 0 <= j < s.kinds ==> ((#[trigger] t1.spec_props(i, j)).repel_distance
                == t2.spec_props(i, j).repel_distance && t1.spec_props(i, j).influence_radius
                == t2.spec_props(i, j).influence_radius),
        forall|i: int| 0 <= i < s.kinds ==> t1.colors[i] == t2.colors[i],
{
    assert forall|i: int, j: int|
        0 <= i < s.kinds && 0 <= j < s.kinds implies ((#[trigger] t1.spec_props(i, j)).repel_distance
        == t2.spec_props(i, j).repel_distance && t1.spec_props(i, j).influence_radius
        == t2.spec_props(i, j).influence_radius) by {
        if j <= i {
            assert(t1.spec_props(i, j).repel_distance == t2.spec_props(i, j).repel_distance);
            assert(t1.spec_props(i, j).influence_radius == t2.spec_props(i, j).influence_radius);
        } else {
            assert(t1.spec_props(j, i).repel_distance == t2.spec_props(j, i).repel_distance);
            assert(t1.spec_props(j, i).influence_radius == t2.spec_props(j, i).influence_radius);
        }
    }
    assert forall|i: int| 0 <= i < s.kinds implies t1.colors[i] == t2.colors[i] by {
        assert(t1.colors[i] == spec_color_value(s.kinds as int, i));
        assert(t2.colors[i] == spec_color_value(s.kinds as int, i));
    }
}

} // verus!
