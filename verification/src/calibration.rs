//! Calibration of formula estimates from throughput measured on this exact
//! hardware.
use vstd::prelude::*;
use vstd::relations::{sorted_by, total_ordering};

use crate::fit::{refreshed, EstimateBasis, EstimateConfidence, MeasuredSource, ModelFit};

verus! {

broadcast use vstd::seq_lib::group_to_multiset_ensures;

/// The fixed-point scale of calibration factors and ratios: `1.0`.
pub const CALIBRATION_SCALE: u64 = 1_000_000;

/// The smallest calibration factor applied: `0.05`.
pub const MIN_CALIBRATION: u64 = 50_000;

/// The largest calibration factor applied: `3.0`.
pub const MAX_CALIBRATION: u64 = 3_000_000;

/// Anchors need at least one billion parameters (counted in millions).
pub const ANCHOR_MIN_PARAMS_M: u64 = 1_000;

/// The order in which ratios are sorted.
pub open spec fn ratio_leq() -> spec_fn(u128, u128) -> bool {
    |a: u128, b: u128| a <= b
}

/// The formula estimate of a row before any calibration. A row calibrated by
/// a positive factor has its estimate divided by the factor, unless the
/// formula estimate recorded beside the factor scales to exactly the row's
/// estimate, in which case that recorded estimate is the one (it is what the
/// division would give but for the rounding of the scaling).
pub open spec fn uncalibrated_tps(f: ModelFit) -> int {
    match f.estimate_basis.local_calibration {
        Some(c) => if c > 0 {
            if scaled_tps(f.estimate_basis.formula_tps as int, c as int) == f.estimated_tps {
                f.estimate_basis.formula_tps as int
            } else {
                f.estimated_tps * (CALIBRATION_SCALE as int) / (c as int)
            }
        } else {
            f.estimated_tps as int
        },
        None => f.estimated_tps as int,
    }
}

/// Whether a row anchors the calibration: a dense model of at least one
/// billion parameters, measured on this hardware (locally or by the
/// community), with a positive measurement and a positive formula estimate.
pub open spec fn is_anchor(f: ModelFit) -> bool {
    &&& f.model.params_m >= ANCHOR_MIN_PARAMS_M
    &&& !f.model.is_moe
    &&& f.measured_tps is Some
    &&& (f.measured_tps->0.source == MeasuredSource::LocalBench || f.measured_tps->0.source
        == MeasuredSource::CommunityLlmfit)
    &&& f.measured_tps->0.tok_s > 0
    &&& uncalibrated_tps(f) > 0
}

/// The measured/estimated ratio of an anchor, in millionths.
pub open spec fn anchor_ratio(f: ModelFit) -> u128 {
    (f.measured_tps->0.tok_s * (CALIBRATION_SCALE as int) / uncalibrated_tps(f)) as u128
}

/// The ratios of the anchors among `fits`, in row order.
pub open spec fn anchor_ratios(fits: Seq<ModelFit>) -> Seq<u128>
    decreases fits.len(),
{
    if fits.len() == 0 {
        Seq::empty()
    } else {
        let rest = anchor_ratios(fits.drop_last());
        if is_anchor(fits.last()) {
            rest.push(anchor_ratio(fits.last()))
        } else {
            rest
        }
    }
}

/// The median of a sequence taken in its given order: the middle element of
/// an odd-length sequence, the mean (rounded down) of the two middle
/// elements of an even-length one.
pub open spec fn median_value(s: Seq<u128>) -> int {
    let n = s.len() as int;
    if n % 2 == 1 {
        s[n / 2] as int
    } else {
        (s[n / 2 - 1] + s[n / 2]) / 2
    }
}

/// `x` limited to the range of calibration factors.
pub open spec fn clamp_factor(x: int) -> int {
    if x < MIN_CALIBRATION {
        MIN_CALIBRATION as int
    } else if x > MAX_CALIBRATION {
        MAX_CALIBRATION as int
    } else {
        x
    }
}

/// The factor that calibration applies to `fits`, if any row anchors it:
/// the median of the sorted anchor ratios, clamped.
pub open spec fn calibration_factor(fits: Seq<ModelFit>) -> Option<u64> {
    let r = anchor_ratios(fits);
    if r.len() == 0 {
        None
    } else {
        Some(clamp_factor(median_value(r.sort_by(ratio_leq()))) as u64)
    }
}

/// An uncalibrated estimate scaled by `factor`, saturating at the largest
/// representable throughput.
pub open spec fn scaled_tps(uncalibrated: int, factor: int) -> int {
    let s = uncalibrated * factor / (CALIBRATION_SCALE as int);
    if s > u64::MAX {
        u64::MAX as int
    } else {
        s
    }
}

/// A row after calibration by `factor`: a row without a positive estimate is
/// left alone; any other row is rescaled from its uncalibrated estimate,
/// records the factor and that estimate, and has its confidence refreshed.
pub open spec fn calibrated(f: ModelFit, factor: u64) -> ModelFit {
    if f.estimated_tps == 0 {
        f
    } else {
        refreshed(
            ModelFit {
                estimated_tps: scaled_tps(uncalibrated_tps(f), factor as int) as u64,
                estimate_basis: EstimateBasis {
                    local_calibration: Some(factor),
                    formula_tps: uncalibrated_tps(f) as u128,
                },
                ..f
            },
        )
    }
}

/// A throughput scaled to millionths still fits in `u128`.
proof fn lemma_scale_fits(x: u64)
    ensures
        (x as int) * (CALIBRATION_SCALE as int) <= u64::MAX * (CALIBRATION_SCALE as int),
{
    assert((x as int) * 1_000_000 <= u64::MAX * 1_000_000) by (nonlinear_arith)
        requires
            x <= u64::MAX,
    ;
}

/// All rows after calibration: unchanged when no row anchors the
/// calibration, each row calibrated by the factor otherwise.
pub open spec fn calibrate_all(fits: Seq<ModelFit>) -> Seq<ModelFit> {
    match calibration_factor(fits) {
        None => fits,
        Some(k) => fits.map_values(|f: ModelFit| calibrated(f, k)),
    }
}

/// The uncalibrated estimate of `f`.
fn uncalibrated(f: &ModelFit) -> (u: u128)
    ensures
        u == uncalibrated_tps(*f),
{
    match f.estimate_basis.local_calibration {
        Some(c) => {
            if c > 0 {
                let recorded = f.estimate_basis.formula_tps;
                if scale(recorded, c) == f.estimated_tps {
                    recorded
                } else {
                    proof {
                        lemma_scale_fits(f.estimated_tps);
                    }
                    (f.estimated_tps as u128) * (CALIBRATION_SCALE as u128) / (c as u128)
                }
            } else {
                f.estimated_tps as u128
            }
        },
        None => f.estimated_tps as u128,
    }
}

/// A product too large for `u128` scales past the largest throughput.
proof fn lemma_overflow_saturates(u: u128, factor: u64)
    requires
        (u as int) * (factor as int) > u128::MAX,
    ensures
        (u as int) * (factor as int) / (CALIBRATION_SCALE as int) > u64::MAX,
{
    let p = (u as int) * (factor as int);
    assert(p / 1_000_000 > u64::MAX) by (nonlinear_arith)
        requires
            p > u128::MAX,
    ;
}

/// `u` scaled by `factor`, saturating at the largest throughput.
fn scale(u: u128, factor: u64) -> (r: u64)
    ensures
        r == scaled_tps(u as int, factor as int),
{
    match u.checked_mul(factor as u128) {
        Some(p) => {
            let s = p / (CALIBRATION_SCALE as u128);
            if s > u64::MAX as u128 {
                u64::MAX
            } else {
                s as u64
            }
        },
        None => {
            proof {
                lemma_overflow_saturates(u, factor);
            }
            u64::MAX
        },
    }
}

/// The ratio of `f` when it anchors the calibration.
fn anchor_ratio_of(f: &ModelFit) -> (r: Option<u128>)
    ensures
        r is Some <==> is_anchor(*f),
        r is Some ==> r->0 == anchor_ratio(*f),
{
    if f.model.params_m < ANCHOR_MIN_PARAMS_M || f.model.is_moe {
        return None;
    }
    match f.measured_tps {
        Some(m) => {
            if m.source != MeasuredSource::LocalBench && m.source != MeasuredSource::CommunityLlmfit {
                return None;
            }
            let est = uncalibrated(f);
            if est > 0 && m.tok_s > 0 {
                proof {
                    lemma_scale_fits(m.tok_s);
                }
                Some((m.tok_s as u128) * (CALIBRATION_SCALE as u128) / est)
            } else {
                None
            }
        },
        None => None,
    }
}

/// The median of `sorted`: its middle element when its length is odd, the
/// mean of its two middle elements (rounded down) when it is even.
pub fn median(sorted: &[u128]) -> (m: u128)
    requires
        sorted@.len() > 0,
    ensures
        m == median_value(sorted@),
{
    let n = sorted.len();
    if n % 2 == 1 {
        sorted[n / 2]
    } else {
        let a = sorted[n / 2 - 1];
        let b = sorted[n / 2];
        a / 2 + b / 2 + (a % 2 + b % 2) / 2
    }
}

/// Inserts `x` into the sorted `v`, keeping it sorted.
fn insert_sorted(v: &mut Vec<u128>, x: u128)
    requires
        sorted_by(old(v)@, ratio_leq()),
    ensures
        sorted_by(final(v)@, ratio_leq()),
        final(v)@.to_multiset() == old(v)@.to_multiset().insert(x),
{
    let mut i: usize = 0;
    while i < v.len() && v[i] <= x
        invariant
            i <= v.len(),
            v@ == old(v)@,
            forall|j: int| 0 <= j < i ==> v@[j] <= x,
        decreases v.len() - i,
    {
        i += 1;
    }
    let ghost before = v@;
    v.insert(i, x);
    proof {
        assert(v@.remove(i as int) =~= before);
        assert(v@.to_multiset().contains(x)) by {
            assert(v@[i as int] == x);
        }
        assert(v@.to_multiset().remove(x).insert(x) =~= v@.to_multiset());
        assert forall|a: int, b: int| 0 <= a < b < v@.len() implies #[trigger] ratio_leq()(
            v@[a],
            v@[b],
        ) by {
            if b < i {
                assert(ratio_leq()(before[a], before[b]));
            } else if a > i {
                assert(ratio_leq()(before[a - 1], before[b - 1]));
            } else if a == i {
                if i < b - 1 {
                    assert(ratio_leq()(before[i as int], before[b - 1]));
                }
            } else {
                assert(b >= i);
            }
        }
    }
}

/// The elements of `v`, sorted.
fn sorted_ratios(v: &Vec<u128>) -> (r: Vec<u128>)
    ensures
        r@ == v@.sort_by(ratio_leq()),
{
    let mut r: Vec<u128> = Vec::new();
    let mut i: usize = 0;
    while i < v.len()
        invariant
            i <= v.len(),
            sorted_by(r@, ratio_leq()),
            r@.to_multiset() == v@.take(i as int).to_multiset(),
        decreases v.len() - i,
    {
        insert_sorted(&mut r, v[i]);
        assert(v@.take(i + 1) =~= v@.take(i as int).push(v@[i as int]));
        i += 1;
    }
    proof {
        assert(v@.take(v@.len() as int) =~= v@);
        v@.lemma_sort_by_ensures(ratio_leq());
        assert(total_ordering(ratio_leq()));
        vstd::seq_lib::lemma_sorted_unique(r@, v@.sort_by(ratio_leq()), ratio_leq());
    }
    r
}

} // verus!

verus! {

/// Calibrates formula estimates from benchmark runs made on this exact
/// hardware.
///
/// Anchors are the rows that `is_anchor` accepts. The median of their
/// measured/estimated ratios, clamped to `[0.05, 3.0]`, scales every row with
/// a positive estimate, and is recorded in `estimate_basis.local_calibration`
/// beside the formula estimate it scaled; the confidence of each such row is
/// refreshed. Ratios and scaling always start from the formula estimate, so
/// re-applying after a new bench does not compound
/// (`lemma_calibration_is_idempotent`). Without anchors nothing changes.
pub fn apply_local_calibration(fits: &mut [ModelFit])
    ensures
        final(fits)@ == calibrate_all(old(fits)@),
{
    let mut ratios: Vec<u128> = Vec::new();
    let mut i: usize = 0;
    while i < fits.len()
        invariant
            i <= fits.len(),
            fits@ == old(fits)@,
            ratios@ == anchor_ratios(fits@.take(i as int)),
        decreases fits.len() - i,
    {
        let r = anchor_ratio_of(&fits[i]);
        proof {
            let t = fits@.take(i + 1);
            assert(t.drop_last() =~= fits@.take(i as int));
            assert(t.last() == fits@[i as int]);
        }
        match r {
            Some(ratio) => ratios.push(ratio),
            None => {},
        }
        i += 1;
    }
    assert(fits@.take(fits@.len() as int) =~= fits@);
    if ratios.len() == 0 {
        return;
    }
    let sorted = sorted_ratios(&ratios);
    proof {
        ratios@.lemma_sort_by_ensures(ratio_leq());
        assert(sorted@.len() == ratios@.len()) by {
            assert(sorted@.to_multiset().len() == ratios@.to_multiset().len());
        }
    }
    let m = median(sorted.as_slice());
    let factor: u64 = if m < MIN_CALIBRATION as u128 {
        MIN_CALIBRATION
    } else if m > MAX_CALIBRATION as u128 {
        MAX_CALIBRATION
    } else {
        m as u64
    };
    assert(calibration_factor(old(fits)@) == Some(factor));
    let mut j: usize = 0;
    while j < fits.len()
        invariant
            j <= fits.len(),
            fits@.len() == old(fits)@.len(),
            MIN_CALIBRATION <= factor <= MAX_CALIBRATION,
            forall|k: int| 0 <= k < j ==> #[trigger] fits@[k] == calibrated(old(fits)@[k], factor),
            forall|k: int| j <= k < fits@.len() ==> #[trigger] fits@[k] == old(fits)@[k],
        decreases fits.len() - j,
    {
        if fits[j].estimated_tps > 0 {
            let u = uncalibrated(&fits[j]);
            let new_tps = scale(u, factor);
            fits[j].estimated_tps = new_tps;
            fits[j].estimate_basis = EstimateBasis { local_calibration: Some(factor), formula_tps: u };
            fits[j].refresh_estimate_confidence();
        }
        j += 1;
    }
    assert(fits@ =~= old(fits)@.map_values(|f: ModelFit| calibrated(f, factor)));
}

} // verus!

verus! {

/// Whenever calibration applies a factor, the factor lies within
/// `[0.05, 3.0]`.
pub proof fn lemma_factor_within_bounds(fits: Seq<ModelFit>)
    ensures
        calibration_factor(fits) matches Some(k) ==> MIN_CALIBRATION <= k <= MAX_CALIBRATION,
{
}

/// Calibration does not compound: a calibrated row keeps the uncalibrated
/// estimate it was scaled from, and calibrating it again by the same factor
/// changes nothing.
pub proof fn lemma_recalibration_does_not_compound(f: ModelFit, factor: u64)
    requires
        factor > 0,
    ensures
        uncalibrated_tps(calibrated(f, factor)) == uncalibrated_tps(f),
        calibrated(calibrated(f, factor), factor) == calibrated(f, factor),
{
    lemma_uncalibrated_in_range(f);
}

/// The uncalibrated estimate of a row is a `u128`.
proof fn lemma_uncalibrated_in_range(f: ModelFit)
    ensures
        0 <= uncalibrated_tps(f) <= u128::MAX,
{
    match f.estimate_basis.local_calibration {
        Some(c) => {
            if c > 0 {
                let est = f.estimated_tps as int;
                assert(0 <= est * 1_000_000 / (c as int) <= u64::MAX * 1_000_000) by (nonlinear_arith)
                    requires
                        0 <= est <= u64::MAX,
                        c > 0,
                ;
            }
        },
        None => {},
    }
}

/// Calibrating every row by one factor keeps the anchors and their ratios.
proof fn lemma_calibration_keeps_anchor_ratios(fits: Seq<ModelFit>, factor: u64)
    requires
        factor > 0,
    ensures
        anchor_ratios(fits.map_values(|f: ModelFit| calibrated(f, factor))) == anchor_ratios(fits),
    decreases fits.len(),
{
    let g = fits.map_values(|f: ModelFit| calibrated(f, factor));
    if fits.len() > 0 {
        let init = fits.drop_last();
        assert(g.drop_last() =~= init.map_values(|f: ModelFit| calibrated(f, factor)));
        lemma_calibration_keeps_anchor_ratios(init, factor);
        lemma_recalibration_does_not_compound(fits.last(), factor);
        assert(g.last() == calibrated(fits.last(), factor));
    }
}

/// Calibration is idempotent: re-applying it to its own result changes
/// nothing, so re-applying after a new bench never compounds.
pub proof fn lemma_calibration_is_idempotent(fits: Seq<ModelFit>)
    ensures
        calibrate_all(calibrate_all(fits)) == calibrate_all(fits),
{
    match calibration_factor(fits) {
        None => {},
        Some(k) => {
            let g = fits.map_values(|f: ModelFit| calibrated(f, k));
            lemma_calibration_keeps_anchor_ratios(fits, k);
            assert(calibration_factor(g) == Some(k));
            assert(g.map_values(|f: ModelFit| calibrated(f, k)) =~= g) by {
                assert forall|i: int| 0 <= i < g.len() implies #[trigger] calibrated(g[i], k)
                    == g[i] by {
                    lemma_recalibration_does_not_compound(fits[i], k);
                }
            }
        },
    }
}

} // verus!

verus! {

/// Calibration leaves a sweep without anchors alone, keeps the length of any
/// sweep, and, when some row anchors it with factor `k`, rescales every row
/// with a positive estimate, dense or mixture-of-experts, measured or not:
/// its estimate becomes its uncalibrated estimate times `k` (saturating), it
/// records `k`, and its confidence becomes calibrated unless it is measured.
/// Rows without a positive estimate are left alone, and no row changes its
/// model, installed marker, quantisation or measurement.
pub proof fn lemma_calibration_scales_every_estimated_row(fits: Seq<ModelFit>)
    ensures
        calibrate_all(fits).len() == fits.len(),
        calibration_factor(fits) is None ==> calibrate_all(fits) == fits,
        forall|i: int|
            0 <= i < fits.len() ==> {
                &&& (#[trigger] calibrate_all(fits)[i]).model == fits[i].model
                &&& calibrate_all(fits)[i].installed == fits[i].installed
                &&& calibrate_all(fits)[i].best_quant == fits[i].best_quant
                &&& calibrate_all(fits)[i].measured_tps == fits[i].measured_tps
                &&& fits[i].estimated_tps == 0 ==> calibrate_all(fits)[i] == fits[i]
            },
        calibration_factor(fits) matches Some(k) ==> forall|i: int|
            0 <= i < fits.len() && fits[i].estimated_tps > 0 ==> {
                &&& (#[trigger] calibrate_all(fits)[i]).estimate_basis.local_calibration == Some(k)
                &&& calibrate_all(fits)[i].estimated_tps as int == if uncalibrated_tps(fits[i]) * k
                    / 1_000_000 > u64::MAX {
                    u64::MAX as int
                } else {
                    uncalibrated_tps(fits[i]) * k / 1_000_000
                }
                &&& calibrate_all(fits)[i].estimate_confidence == if fits[i].measured_tps is Some {
                    EstimateConfidence::Measured
                } else {
                    EstimateConfidence::Calibrated
                }
            },
{
    match calibration_factor(fits) {
        None => {},
        Some(k) => {
            assert forall|i: int| 0 <= i < fits.len() && fits[i].estimated_tps > 0 implies
                #[trigger] calibrate_all(fits)[i].estimated_tps as int == if uncalibrated_tps(
                fits[i],
            ) * k / 1_000_000 > u64::MAX {
                u64::MAX as int
            } else {
                uncalibrated_tps(fits[i]) * k / 1_000_000
            } by {
                lemma_uncalibrated_in_range(fits[i]);
                let u = uncalibrated_tps(fits[i]);
                assert(u * k / 1_000_000 >= 0) by (nonlinear_arith)
                    requires
                        u >= 0,
                        k >= 0,
                ;
            }
        },
    }
}

} // verus!

verus! {

/// A row that cannot anchor the calibration (a mixture-of-experts model, a
/// model under one billion parameters, or a row without a local or community
/// measurement) never moves the factor: dropping it from the sweep leaves the
/// anchor ratios, and so the factor, as they were.
pub proof fn lemma_non_anchors_do_not_move_the_factor(fits: Seq<ModelFit>, i: int)
    requires
        0 <= i < fits.len(),
        fits[i].model.is_moe || fits[i].model.params_m < 1_000 || fits[i].measured_tps is None
            || fits[i].measured_tps->0.source == MeasuredSource::Localmaxxing,
    ensures
        anchor_ratios(fits.remove(i)) == anchor_ratios(fits),
        calibration_factor(fits.remove(i)) == calibration_factor(fits),
    decreases fits.len(),
{
    if i == fits.len() - 1 {
        assert(fits.remove(i) =~= fits.drop_last());
    } else {
        let init = fits.drop_last();
        assert(init[i] == fits[i]);
        lemma_non_anchors_do_not_move_the_factor(init, i);
        assert(fits.remove(i).drop_last() =~= init.remove(i));
        assert(fits.remove(i).last() == fits.last());
    }
}

} // verus!
