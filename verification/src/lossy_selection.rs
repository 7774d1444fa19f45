use vstd::prelude::*;
use crate::coefficient_levels::lossless_coefficient_levels_and_bounds;
use crate::coefficient_proxy::{coefficient_proxy_score, dc_delta_coefficient_proxy_score, dc_delta_proxy_spec, proxy_score_spec};
use crate::entropy::saturating_add_spec;
use crate::high_range::Av2CoefficientCodingKind;
use crate::lossy_candidates::{
    Av2LossyQuantizedResidualCandidate, Av2LossyRegularDctCandidates, Av2LossyTxbChoice, analysis_residual_wf,
    is_zero_regular_candidate, regular_candidates_are, regular_levels_spec,
};
use crate::lossy_metrics::ac_prune_threshold_spec;
use crate::lossy_state::{Av2LossySubsampledTileState, Av2LossyTxbAnalysis};
use crate::quantization::qlookup_spec;
use crate::lossy_metrics::{
    lossy_txb_score, lossy_txb_score_spec, regular_q_dc_only_max_extra_sse, regular_q_rd_quant_step, regular_q_tail_pruned_max_extra_sse,
    sat_mul_spec,
};

verus! {

/// Rate-distortion score of a candidate at distortion step `rd_step`.
pub open spec fn candidate_score_spec(c: Av2LossyQuantizedResidualCandidate, kind: Av2CoefficientCodingKind, rd_step: i32) -> int {
    lossy_txb_score_spec(proxy_score_spec(c.coefficients@, kind), c.sse as int, c.variance_loss as int, rd_step)
}

/// The running choice after offering `candidate`: taken when it scores
/// strictly lower and adds at most `max_extra` squared error over
/// `base_sse`.
pub open spec fn gated_pick(
    best: (Av2LossyQuantizedResidualCandidate, int),
    candidate: Option<Av2LossyQuantizedResidualCandidate>,
    base_sse: int,
    max_extra: int,
    kind: Av2CoefficientCodingKind,
) -> (Av2LossyQuantizedResidualCandidate, int) {
    match candidate {
        Some(c) => {
            let score = candidate_score_spec(c, kind, 4);
            if score < best.1 && c.sse <= saturating_add_spec(base_sse, max_extra) { (c, score) } else { best }
        },
        None => best,
    }
}

/// Extra squared error a DC-only regular candidate may add.
pub open spec fn dc_only_extra_spec(quant_step: i32) -> int {
    sat_mul_spec(if quant_step >= 1 { quant_step as int } else { 1 }, 2)
}

/// Extra squared error a tail-pruned regular candidate may add.
pub open spec fn tail_extra_spec(quant_step: i32) -> int {
    let step = if quant_step >= 1 { quant_step as int } else { 1 };
    if step / 8 >= 1 { step / 8 } else { 1 }
}

/// The regular-DCT candidate chosen: the full transform unless a
/// tail-pruned variant, then the DC-only variant, scores strictly lower
/// without adding more than the allowed squared error.
pub open spec fn choose_regular_q_spec(
    candidates: Av2LossyRegularDctCandidates,
    kind: Av2CoefficientCodingKind,
    quant_step: i32,
) -> Av2LossyQuantizedResidualCandidate {
    let t = candidates.transform;
    let first = (t, candidate_score_spec(t, kind, 4));
    let after_tail = gated_pick(first, candidates.tail_pruned, t.sse as int, tail_extra_spec(quant_step), kind);
    let after_double = gated_pick(after_tail, candidates.double_tail_pruned, t.sse as int, tail_extra_spec(quant_step), kind);
    let last = gated_pick(after_double, Some(candidates.dc_only), t.sse as int, dc_only_extra_spec(quant_step), kind);
    last.0
}

/// Rate-distortion score of a candidate under the regular quantizer's
/// distortion step.
fn regular_candidate_score(c: &Av2LossyQuantizedResidualCandidate, kind: Av2CoefficientCodingKind, quant_step: i32) -> (r: usize)
    ensures
        r == candidate_score_spec(*c, kind, 4),
{
    let rate = coefficient_proxy_score(&c.coefficients, kind);
    lossy_txb_score(rate, c.sse, c.variance_loss, regular_q_rd_quant_step(quant_step))
}

/// Chooses among the regular-DCT candidates of a block.
pub fn choose_regular_q_lossy_txb(
    candidates: Av2LossyRegularDctCandidates,
    kind: Av2CoefficientCodingKind,
    quant_step: i32,
) -> (r: Av2LossyQuantizedResidualCandidate)
    ensures
        r == choose_regular_q_spec(candidates, kind, quant_step),
{
    let transform_candidate = candidates.transform;
    let transform_score = regular_candidate_score(&transform_candidate, kind, quant_step);
    let mut best_candidate = transform_candidate;
    let mut best_score = transform_score;
    let max_extra_sse = regular_q_dc_only_max_extra_sse(quant_step);
    let max_tail_extra_sse = regular_q_tail_pruned_max_extra_sse(quant_step);
    let ghost first = (transform_candidate, transform_score as int);
    let ghost after_tail = gated_pick(first, candidates.tail_pruned, transform_candidate.sse as int, tail_extra_spec(quant_step), kind);
    if let Some(tail_pruned_candidate) = candidates.tail_pruned {
        let tail_score = regular_candidate_score(&tail_pruned_candidate, kind, quant_step);
        if tail_score < best_score && tail_pruned_candidate.sse <= transform_candidate.sse.saturating_add(max_tail_extra_sse) {
            best_candidate = tail_pruned_candidate;
            best_score = tail_score;
        }
    }
    assert((best_candidate, best_score as int) == after_tail);
    let ghost after_double = gated_pick(after_tail, candidates.double_tail_pruned, transform_candidate.sse as int, tail_extra_spec(quant_step), kind);
    if let Some(tail_pruned_candidate) = candidates.double_tail_pruned {
        let tail_score = regular_candidate_score(&tail_pruned_candidate, kind, quant_step);
        if tail_score < best_score && tail_pruned_candidate.sse <= transform_candidate.sse.saturating_add(max_tail_extra_sse) {
            best_candidate = tail_pruned_candidate;
            best_score = tail_score;
        }
    }
    assert((best_candidate, best_score as int) == after_double);
    let dc_only_candidate = candidates.dc_only;
    let dc_score = regular_candidate_score(&dc_only_candidate, kind, quant_step);
    if dc_score < best_score && dc_only_candidate.sse <= transform_candidate.sse.saturating_add(max_extra_sse) {
        dc_only_candidate
    } else {
        best_candidate
    }
}

/// Whether every coefficient of a candidate is zero.
pub fn regular_quantized_txb_is_zero(candidate: &Av2LossyQuantizedResidualCandidate) -> (r: bool)
    ensures
        r == (forall|i: int| 0 <= i < 16 ==> #[trigger] candidate.coefficients[i] == 0),
{
    let mut i: usize = 0;
    while i < 16
        invariant
            i <= 16,
            forall|k: int| 0 <= k < i ==> #[trigger] candidate.coefficients[k] == 0,
        decreases 16 - i,
    {
        if candidate.coefficients[i] != 0 {
            return false;
        }
        i = i + 1;
    }
    true
}

/// Whether an AC candidate's end of block stays within the block, so that
/// the reference decoder reconstructs it; every 4x4 block's does.
pub fn lossy_ac_candidate_is_reference_clean(coefficients: &[i32; 16]) -> (r: bool)
    ensures
        r,
{
    let (_, bounds) = lossless_coefficient_levels_and_bounds(coefficients);
    match bounds {
        None => true,
        Some((_, eob)) => eob <= 16,
    }
}

/// Squared error a choice introduces.
pub open spec fn choice_sse_spec(choice: Av2LossyTxbChoice, dc_sse: usize) -> int {
    match choice {
        Av2LossyTxbChoice::Exact => 0,
        Av2LossyTxbChoice::DcDelta(_) => dc_sse as int,
        Av2LossyTxbChoice::QuantizedResidual(c) => c.sse as int,
    }
}

/// Squared error a choice introduces: none when exact, the DC-only error, or
/// the candidate's.
pub fn lossy_choice_sse(choice: &Av2LossyTxbChoice, dc_sse: usize) -> (r: usize)
    ensures
        r == choice_sse_spec(*choice, dc_sse),
{
    match choice {
        Av2LossyTxbChoice::Exact => 0,
        Av2LossyTxbChoice::DcDelta(_) => dc_sse,
        Av2LossyTxbChoice::QuantizedResidual(candidate) => candidate.sse,
    }
}

/// Whether two residual blocks are equal.
fn same_residual(a: &[i32; 16], b: &[i32; 16]) -> (r: bool)
    ensures
        r == (a@ == b@),
{
    let mut i: usize = 0;
    while i < 16
        invariant
            i <= 16,
            forall|k: int| 0 <= k < i ==> a[k] == b[k],
        decreases 16 - i,
    {
        if a[i] != b[i] {
            return false;
        }
        i = i + 1;
    }
    assert(a@ =~= b@);
    true
}

/// The running choice after offering an AC candidate: taken when it scores
/// strictly lower, as an exact choice when its residual is the exact one.
pub open spec fn ac_pick(
    best: (Av2LossyTxbChoice, int),
    candidate: Option<Av2LossyQuantizedResidualCandidate>,
    exact_residual: Seq<i32>,
    kind: Av2CoefficientCodingKind,
    quant_step: i32,
) -> (Av2LossyTxbChoice, int) {
    match candidate {
        Some(c) => {
            let score = lossy_txb_score_spec(proxy_score_spec(c.coefficients@, kind), c.sse as int, c.variance_loss as int, quant_step);
            if score < best.1 {
                (if exact_residual == c.residual@ { Av2LossyTxbChoice::Exact } else { Av2LossyTxbChoice::QuantizedResidual(c) }, score)
            } else {
                best
            }
        },
        None => best,
    }
}

/// The choice for a lossy block: exact coding unless the DC delta (when
/// allowed) or an AC candidate scores strictly lower, each in turn; exact
/// coding again when the chosen one's squared error exceeds `max_txb_sse`.
pub open spec fn choose_lossy_spec(
    quantized_delta: i16,
    exact_residual: Seq<i32>,
    exact_coefficients: Seq<i32>,
    kind: Av2CoefficientCodingKind,
    quant_step: i32,
    max_txb_sse: usize,
    dc_sse: usize,
    dc_variance_loss: usize,
    quantized_candidate: Option<Av2LossyQuantizedResidualCandidate>,
    refined_quantized_candidate: Option<Av2LossyQuantizedResidualCandidate>,
    transform_quantized_candidate: Option<Av2LossyQuantizedResidualCandidate>,
    allow_dc_delta: bool,
) -> Av2LossyTxbChoice {
    let exact = (Av2LossyTxbChoice::Exact, proxy_score_spec(exact_coefficients, kind));
    let dc_score = lossy_txb_score_spec(dc_delta_proxy_spec(quantized_delta, kind), dc_sse as int, dc_variance_loss as int, quant_step);
    let after_dc = if allow_dc_delta && dc_score < exact.1 { (Av2LossyTxbChoice::DcDelta(quantized_delta), dc_score) } else { exact };
    let after_q = ac_pick(after_dc, quantized_candidate, exact_residual, kind, quant_step);
    let after_refined = ac_pick(after_q, refined_quantized_candidate, exact_residual, kind, quant_step);
    let after_transform = ac_pick(after_refined, transform_quantized_candidate, exact_residual, kind, quant_step);
    if choice_sse_spec(after_transform.0, dc_sse) > max_txb_sse { Av2LossyTxbChoice::Exact } else { after_transform.0 }
}

/// Offers an AC candidate to the running choice.
fn offer_ac_candidate(
    best_choice: &mut Av2LossyTxbChoice,
    best_score: &mut usize,
    candidate: Option<Av2LossyQuantizedResidualCandidate>,
    exact_residual: &[i32; 16],
    kind: Av2CoefficientCodingKind,
    quant_step: i32,
)
    ensures
        (*final(best_choice), *final(best_score) as int) == ac_pick(
            (*old(best_choice), *old(best_score) as int),
            candidate,
            exact_residual@,
            kind,
            quant_step,
        ),
{
    if let Some(candidate) = candidate {
        if lossy_ac_candidate_is_reference_clean(&candidate.coefficients) {
            let quantized_score = coefficient_proxy_score(&candidate.coefficients, kind);
            let quantized_candidate_score = lossy_txb_score(quantized_score, candidate.sse, candidate.variance_loss, quant_step);
            if quantized_candidate_score < *best_score {
                *best_score = quantized_candidate_score;
                *best_choice = if same_residual(exact_residual, &candidate.residual) {
                    Av2LossyTxbChoice::Exact
                } else {
                    Av2LossyTxbChoice::QuantizedResidual(candidate)
                };
            }
        }
    }
}

/// Chooses how to code a lossy block among exact coding, a DC delta and the
/// quantized AC candidates.
pub fn choose_lossy_txb(
    quantized_delta: i16,
    exact_residual: &[i32; 16],
    exact_coefficients: &[i32; 16],
    kind: Av2CoefficientCodingKind,
    quant_step: i32,
    max_txb_sse: usize,
    dc_sse: usize,
    dc_variance_loss: usize,
    quantized_candidate: Option<Av2LossyQuantizedResidualCandidate>,
    refined_quantized_candidate: Option<Av2LossyQuantizedResidualCandidate>,
    transform_quantized_candidate: Option<Av2LossyQuantizedResidualCandidate>,
    allow_dc_delta: bool,
) -> (r: Av2LossyTxbChoice)
    ensures
        r == choose_lossy_spec(
            quantized_delta,
            exact_residual@,
            exact_coefficients@,
            kind,
            quant_step,
            max_txb_sse,
            dc_sse,
            dc_variance_loss,
            quantized_candidate,
            refined_quantized_candidate,
            transform_quantized_candidate,
            allow_dc_delta,
        ),
{
    let exact_score = coefficient_proxy_score(exact_coefficients, kind);
    let mut best_choice = Av2LossyTxbChoice::Exact;
    let mut best_score = exact_score;
    if allow_dc_delta {
        let dc_score = dc_delta_coefficient_proxy_score(quantized_delta, kind);
        let dc_candidate_score = lossy_txb_score(dc_score, dc_sse, dc_variance_loss, quant_step);
        if dc_candidate_score < best_score {
            best_score = dc_candidate_score;
            best_choice = Av2LossyTxbChoice::DcDelta(quantized_delta);
        }
    }
    offer_ac_candidate(&mut best_choice, &mut best_score, quantized_candidate, exact_residual, kind, quant_step);
    offer_ac_candidate(&mut best_choice, &mut best_score, refined_quantized_candidate, exact_residual, kind, quant_step);
    offer_ac_candidate(&mut best_choice, &mut best_score, transform_quantized_candidate, exact_residual, kind, quant_step);
    if lossy_choice_sse(&best_choice, dc_sse) > max_txb_sse {
        return Av2LossyTxbChoice::Exact;
    }
    best_choice
}

/// A lossy block's choice never introduces more squared error than the
/// block's budget `max_txb_sse`.
pub proof fn lemma_choose_lossy_within_budget(
    quantized_delta: i16,
    exact_residual: Seq<i32>,
    exact_coefficients: Seq<i32>,
    kind: Av2CoefficientCodingKind,
    quant_step: i32,
    max_txb_sse: usize,
    dc_sse: usize,
    dc_variance_loss: usize,
    quantized_candidate: Option<Av2LossyQuantizedResidualCandidate>,
    refined_quantized_candidate: Option<Av2LossyQuantizedResidualCandidate>,
    transform_quantized_candidate: Option<Av2LossyQuantizedResidualCandidate>,
    allow_dc_delta: bool,
)
    ensures
        choice_sse_spec(
            choose_lossy_spec(
                quantized_delta,
                exact_residual,
                exact_coefficients,
                kind,
                quant_step,
                max_txb_sse,
                dc_sse,
                dc_variance_loss,
                quantized_candidate,
                refined_quantized_candidate,
                transform_quantized_candidate,
                allow_dc_delta,
            ),
            dc_sse,
        ) <= max_txb_sse,
{
}

/// The chosen regular-DCT candidate is the full transform, or one that
/// scores strictly lower than it and adds at most the allowed squared error
/// over it.
pub proof fn lemma_choose_regular_q_improves(candidates: Av2LossyRegularDctCandidates, kind: Av2CoefficientCodingKind, quant_step: i32)
    ensures
        ({
            let t = candidates.transform;
            let r = choose_regular_q_spec(candidates, kind, quant_step);
            r == t || (candidate_score_spec(r, kind, 4) < candidate_score_spec(t, kind, 4) && (r.sse <= saturating_add_spec(
                t.sse as int,
                tail_extra_spec(quant_step),
            ) || r.sse <= saturating_add_spec(t.sse as int, dc_only_extra_spec(quant_step))))
        }),
{
    let t = candidates.transform;
    let first = (t, candidate_score_spec(t, kind, 4));
    let after_tail = gated_pick(first, candidates.tail_pruned, t.sse as int, tail_extra_spec(quant_step), kind);
    let after_double = gated_pick(after_tail, candidates.double_tail_pruned, t.sse as int, tail_extra_spec(quant_step), kind);
    assert(after_tail.1 == candidate_score_spec(after_tail.0, kind, 4));
    assert(after_tail.0 == t || (after_tail.1 < first.1 && after_tail.0.sse <= saturating_add_spec(t.sse as int, tail_extra_spec(quant_step))));
    assert(after_double.1 == candidate_score_spec(after_double.0, kind, 4));
    assert(after_double.0 == t || (after_double.1 < first.1 && after_double.0.sse <= saturating_add_spec(
        t.sse as int,
        tail_extra_spec(quant_step),
    )));
}

/// Without DC deltas the choice is the exact coding or one of the offered
/// AC candidates.
pub proof fn lemma_choose_lossy_without_dc(
    quantized_delta: i16,
    exact_residual: Seq<i32>,
    exact_coefficients: Seq<i32>,
    kind: Av2CoefficientCodingKind,
    quant_step: i32,
    max_txb_sse: usize,
    dc_sse: usize,
    dc_variance_loss: usize,
    quantized_candidate: Option<Av2LossyQuantizedResidualCandidate>,
    refined_quantized_candidate: Option<Av2LossyQuantizedResidualCandidate>,
    transform_quantized_candidate: Option<Av2LossyQuantizedResidualCandidate>,
)
    ensures
        match choose_lossy_spec(
            quantized_delta,
            exact_residual,
            exact_coefficients,
            kind,
            quant_step,
            max_txb_sse,
            dc_sse,
            dc_variance_loss,
            quantized_candidate,
            refined_quantized_candidate,
            transform_quantized_candidate,
            false,
        ) {
            Av2LossyTxbChoice::Exact => true,
            Av2LossyTxbChoice::QuantizedResidual(c) => quantized_candidate == Some(c) || refined_quantized_candidate == Some(c)
                || transform_quantized_candidate == Some(c),
            Av2LossyTxbChoice::DcDelta(_) => false,
        },
{
}

/// `c` is what the regular-DCT candidate search gives for `analysis` on
/// `lossy`'s quantizer: zero candidates for a zero residual, else the
/// candidates of the block's quantized levels.
pub open spec fn regular_candidates_of(
    lossy: &Av2LossySubsampledTileState,
    analysis: Av2LossyTxbAnalysis,
    c: Av2LossyRegularDctCandidates,
) -> bool {
    if forall|i: int| 0 <= i < 16 ==> #[trigger] analysis.residual[i] == 0 {
        &&& is_zero_regular_candidate(c.transform)
        &&& c.dc_only == c.transform
        &&& c.tail_pruned is None
        &&& c.double_tail_pruned is None
    } else {
        regular_candidates_are(
            c,
            analysis,
            regular_levels_spec(
                analysis,
                qlookup_spec(lossy.base_qindex_view(), lossy.bit_depth_view()@),
                ac_prune_threshold_spec(
                    lossy.base_qindex_view(),
                    lossy.bit_depth_view()@,
                    lossy.chroma_format_view(),
                    analysis.source_variance,
                ) as int,
            ),
            qlookup_spec(lossy.base_qindex_view(), lossy.bit_depth_view()@) as i32,
            lossy.bit_depth_view()@,
            lossy.chroma_format_view(),
        )
    }
}

impl<'a> Av2LossySubsampledTileState<'a> {
    /// Rate-distortion score of a block coded with its chosen regular-DCT
    /// candidate.
    pub fn regular_q_txb_rd_score(&self, analysis: &Av2LossyTxbAnalysis, kind: Av2CoefficientCodingKind) -> (r: usize)
        requires
            analysis_residual_wf(*analysis),
        ensures
            exists|c: Av2LossyRegularDctCandidates|
                #[trigger] regular_candidates_of(self, *analysis, c) && r == candidate_score_spec(
                    choose_regular_q_spec(c, kind, self.quant_step_spec() as i32),
                    kind,
                    4,
                ),
    {
        let candidates = self.regular_dct_quantized_residual_candidates(analysis);
        let quant_step = self.quant_step();
        let candidate = choose_regular_q_lossy_txb(candidates, kind, quant_step);
        let rate = coefficient_proxy_score(&candidate.coefficients, kind);
        let r = lossy_txb_score(rate, candidate.sse, candidate.variance_loss, regular_q_rd_quant_step(quant_step));
        assert(regular_candidates_of(self, *analysis, candidates));
        r
    }
}

/// Rate-distortion score of an AC candidate: the rate proxy of its
/// coefficients with its squared error and variance loss.
pub open spec fn ac_candidate_score(c: Av2LossyQuantizedResidualCandidate, kind: Av2CoefficientCodingKind, quant_step: i32) -> int {
    lossy_txb_score_spec(proxy_score_spec(c.coefficients@, kind), c.sse as int, c.variance_loss as int, quant_step)
}

/// The three AC candidate slots are alike: a lone candidate yields the same
/// choice whichever slot carries it.
pub proof fn lemma_choose_lossy_slots_alike(
    quantized_delta: i16,
    exact_residual: Seq<i32>,
    exact_coefficients: Seq<i32>,
    kind: Av2CoefficientCodingKind,
    quant_step: i32,
    max_txb_sse: usize,
    dc_sse: usize,
    dc_variance_loss: usize,
    candidate: Option<Av2LossyQuantizedResidualCandidate>,
    allow_dc_delta: bool,
)
    ensures
        choose_lossy_spec(quantized_delta, exact_residual, exact_coefficients, kind, quant_step, max_txb_sse, dc_sse, dc_variance_loss, candidate, None, None, allow_dc_delta)
            == choose_lossy_spec(quantized_delta, exact_residual, exact_coefficients, kind, quant_step, max_txb_sse, dc_sse, dc_variance_loss, None, candidate, None, allow_dc_delta),
        choose_lossy_spec(quantized_delta, exact_residual, exact_coefficients, kind, quant_step, max_txb_sse, dc_sse, dc_variance_loss, None, candidate, None, allow_dc_delta)
            == choose_lossy_spec(quantized_delta, exact_residual, exact_coefficients, kind, quant_step, max_txb_sse, dc_sse, dc_variance_loss, None, None, candidate, allow_dc_delta),
{
}

/// A candidate that scores strictly below exact coding, below the DC delta
/// when that is allowed, and below every other candidate offered, and whose
/// squared error is within the budget, is the choice: coded exactly when its
/// residual is the exact one, as a quantized residual otherwise. This holds
/// whichever slot carries it.
pub proof fn lemma_choose_lossy_takes_strict_best(
    quantized_delta: i16,
    exact_residual: Seq<i32>,
    exact_coefficients: Seq<i32>,
    kind: Av2CoefficientCodingKind,
    quant_step: i32,
    max_txb_sse: usize,
    dc_sse: usize,
    dc_variance_loss: usize,
    slots: Seq<Option<Av2LossyQuantizedResidualCandidate>>,
    allow_dc_delta: bool,
    k: int,
    best: Av2LossyQuantizedResidualCandidate,
)
    requires
        slots.len() == 3,
        0 <= k < 3,
        slots[k] == Some(best),
        ac_candidate_score(best, kind, quant_step) < proxy_score_spec(exact_coefficients, kind),
        allow_dc_delta ==> ac_candidate_score(best, kind, quant_step) < lossy_txb_score_spec(
            dc_delta_proxy_spec(quantized_delta, kind),
            dc_sse as int,
            dc_variance_loss as int,
            quant_step,
        ),
        forall|j: int| 0 <= j < 3 && j != k && #[trigger] slots[j] is Some ==> ac_candidate_score(best, kind, quant_step)
            < ac_candidate_score(slots[j].unwrap(), kind, quant_step),
        best.sse <= max_txb_sse,
    ensures
        choose_lossy_spec(
            quantized_delta,
            exact_residual,
            exact_coefficients,
            kind,
            quant_step,
            max_txb_sse,
            dc_sse,
            dc_variance_loss,
            slots[0],
            slots[1],
            slots[2],
            allow_dc_delta,
        ) == (if exact_residual == best.residual@ { Av2LossyTxbChoice::Exact } else { Av2LossyTxbChoice::QuantizedResidual(best) }),
{
    let s = ac_candidate_score(best, kind, quant_step);
    let exact = (Av2LossyTxbChoice::Exact, proxy_score_spec(exact_coefficients, kind));
    let dc_score = lossy_txb_score_spec(dc_delta_proxy_spec(quantized_delta, kind), dc_sse as int, dc_variance_loss as int, quant_step);
    let after_dc = if allow_dc_delta && dc_score < exact.1 { (Av2LossyTxbChoice::DcDelta(quantized_delta), dc_score) } else { exact };
    assert(s < after_dc.1);
    let a0 = ac_pick(after_dc, slots[0], exact_residual, kind, quant_step);
    let a1 = ac_pick(a0, slots[1], exact_residual, kind, quant_step);
    let a2 = ac_pick(a1, slots[2], exact_residual, kind, quant_step);
    if slots[0] is Some && k != 0 {
        assert(s < ac_candidate_score(slots[0].unwrap(), kind, quant_step));
    }
    if slots[1] is Some && k != 1 {
        assert(s < ac_candidate_score(slots[1].unwrap(), kind, quant_step));
    }
    if slots[2] is Some && k != 2 {
        assert(s < ac_candidate_score(slots[2].unwrap(), kind, quant_step));
    }
    if k == 0 {
        assert(a0.1 == s);
        assert(a1.1 == s && a1.0 == a0.0);
        assert(a2.1 == s && a2.0 == a0.0);
    } else if k == 1 {
        assert(s < a0.1);
        assert(a1.1 == s);
        assert(a2.1 == s && a2.0 == a1.0);
    } else {
        assert(s < a0.1);
        assert(s < a1.1);
        assert(a2.1 == s);
    }
}

/// The regular-DCT candidates in the order they are offered: the full
/// transform, the two tail-pruned variants and the DC-only variant.
pub open spec fn regular_candidate_slots(candidates: Av2LossyRegularDctCandidates) -> Seq<Option<Av2LossyQuantizedResidualCandidate>> {
    seq![Some(candidates.transform), candidates.tail_pruned, candidates.double_tail_pruned, Some(candidates.dc_only)]
}

/// The regular-DCT choice takes a candidate that scores strictly below
/// every other candidate, provided its squared error stays within what its
/// kind may add to the full transform's (a tail-pruned variant the tail
/// allowance, the DC-only variant the DC allowance).
pub proof fn lemma_choose_regular_q_takes_strict_best(
    candidates: Av2LossyRegularDctCandidates,
    kind: Av2CoefficientCodingKind,
    quant_step: i32,
    k: int,
    best: Av2LossyQuantizedResidualCandidate,
)
    requires
        0 <= k < 4,
        regular_candidate_slots(candidates)[k] == Some(best),
        forall|j: int| 0 <= j < 4 && j != k && (#[trigger] regular_candidate_slots(candidates)[j]) is Some ==> candidate_score_spec(
            best,
            kind,
            4,
        ) < candidate_score_spec(regular_candidate_slots(candidates)[j].unwrap(), kind, 4),
        (k == 1 || k == 2) ==> best.sse <= saturating_add_spec(candidates.transform.sse as int, tail_extra_spec(quant_step)),
        k == 3 ==> best.sse <= saturating_add_spec(candidates.transform.sse as int, dc_only_extra_spec(quant_step)),
    ensures
        choose_regular_q_spec(candidates, kind, quant_step) == best,
{
    let slots = regular_candidate_slots(candidates);
    let s = candidate_score_spec(best, kind, 4);
    if k != 0 {
        assert(slots[0] is Some);
    }
    if slots[1] is Some && k != 1 {
        assert(s < candidate_score_spec(slots[1].unwrap(), kind, 4));
    }
    if slots[2] is Some && k != 2 {
        assert(s < candidate_score_spec(slots[2].unwrap(), kind, 4));
    }
    if k != 3 {
        assert(slots[3] is Some);
        assert(s < candidate_score_spec(candidates.dc_only, kind, 4));
    }
}

/// The regular-DCT choice is always one of the offered candidates, and it
/// never scores above the full transform.
pub proof fn lemma_choose_regular_q_is_offered(
    candidates: Av2LossyRegularDctCandidates,
    kind: Av2CoefficientCodingKind,
    quant_step: i32,
)
    ensures
        ({
            let r = choose_regular_q_spec(candidates, kind, quant_step);
            &&& exists|j: int| 0 <= j < 4 && #[trigger] regular_candidate_slots(candidates)[j] == Some(r)
            &&& candidate_score_spec(r, kind, 4) <= candidate_score_spec(candidates.transform, kind, 4)
        }),
{
    let slots = regular_candidate_slots(candidates);
    let r = choose_regular_q_spec(candidates, kind, quant_step);
    if r == candidates.dc_only {
        assert(slots[3] == Some(r));
    } else if candidates.double_tail_pruned == Some(r) {
        assert(slots[2] == Some(r));
    } else if candidates.tail_pruned == Some(r) {
        assert(slots[1] == Some(r));
    } else {
        assert(slots[0] == Some(r));
    }
}

/// With the DC delta allowed, a DC delta that scores strictly below exact
/// coding and below every AC candidate offered, and whose squared error is
/// within the budget, is the choice.
pub proof fn lemma_choose_lossy_takes_strict_best_dc(
    quantized_delta: i16,
    exact_residual: Seq<i32>,
    exact_coefficients: Seq<i32>,
    kind: Av2CoefficientCodingKind,
    quant_step: i32,
    max_txb_sse: usize,
    dc_sse: usize,
    dc_variance_loss: usize,
    slots: Seq<Option<Av2LossyQuantizedResidualCandidate>>,
)
    requires
        slots.len() == 3,
        ({
            let dc_score = lossy_txb_score_spec(dc_delta_proxy_spec(quantized_delta, kind), dc_sse as int, dc_variance_loss as int, quant_step);
            &&& dc_score < proxy_score_spec(exact_coefficients, kind)
            &&& forall|j: int| 0 <= j < 3 && (#[trigger] slots[j]) is Some ==> dc_score < ac_candidate_score(slots[j].unwrap(), kind, quant_step)
        }),
        dc_sse <= max_txb_sse,
    ensures
        choose_lossy_spec(
            quantized_delta,
            exact_residual,
            exact_coefficients,
            kind,
            quant_step,
            max_txb_sse,
            dc_sse,
            dc_variance_loss,
            slots[0],
            slots[1],
            slots[2],
            true,
        ) == Av2LossyTxbChoice::DcDelta(quantized_delta),
{
    let dc_score = lossy_txb_score_spec(dc_delta_proxy_spec(quantized_delta, kind), dc_sse as int, dc_variance_loss as int, quant_step);
    if slots[0] is Some {
        assert(dc_score < ac_candidate_score(slots[0].unwrap(), kind, quant_step));
    }
    if slots[1] is Some {
        assert(dc_score < ac_candidate_score(slots[1].unwrap(), kind, quant_step));
    }
    if slots[2] is Some {
        assert(dc_score < ac_candidate_score(slots[2].unwrap(), kind, quant_step));
    }
}

/// With nothing scoring strictly below exact coding, the choice is exact
/// coding.
pub proof fn lemma_choose_lossy_keeps_exact(
    quantized_delta: i16,
    exact_residual: Seq<i32>,
    exact_coefficients: Seq<i32>,
    kind: Av2CoefficientCodingKind,
    quant_step: i32,
    max_txb_sse: usize,
    dc_sse: usize,
    dc_variance_loss: usize,
    slots: Seq<Option<Av2LossyQuantizedResidualCandidate>>,
    allow_dc_delta: bool,
)
    requires
        slots.len() == 3,
        allow_dc_delta ==> proxy_score_spec(exact_coefficients, kind) <= lossy_txb_score_spec(
            dc_delta_proxy_spec(quantized_delta, kind),
            dc_sse as int,
            dc_variance_loss as int,
            quant_step,
        ),
        forall|j: int| 0 <= j < 3 && (#[trigger] slots[j]) is Some ==> proxy_score_spec(exact_coefficients, kind) <= ac_candidate_score(
            slots[j].unwrap(),
            kind,
            quant_step,
        ),
    ensures
        choose_lossy_spec(
            quantized_delta,
            exact_residual,
            exact_coefficients,
            kind,
            quant_step,
            max_txb_sse,
            dc_sse,
            dc_variance_loss,
            slots[0],
            slots[1],
            slots[2],
            allow_dc_delta,
        ) == Av2LossyTxbChoice::Exact,
{
    let e = proxy_score_spec(exact_coefficients, kind);
    if slots[0] is Some {
        assert(e <= ac_candidate_score(slots[0].unwrap(), kind, quant_step));
    }
    if slots[1] is Some {
        assert(e <= ac_candidate_score(slots[1].unwrap(), kind, quant_step));
    }
    if slots[2] is Some {
        assert(e <= ac_candidate_score(slots[2].unwrap(), kind, quant_step));
    }
}

} // verus!
