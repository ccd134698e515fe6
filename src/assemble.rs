use vstd::prelude::*;

use crate::error::OcrError;

verus! {

/// Fixed-point unit: confidences and box coordinates are stored in millionths,
/// so `FIXED_ONE` stands for `1.0`.
pub const FIXED_ONE: i32 = 1_000_000;

/// Only the first few ranked candidates of a region are ever looked at.
pub const MAX_CANDIDATES: usize = 5;

/// A candidate is eligible when its confidence is at least this value.
pub const MIN_CONFIDENCE: i32 = 0;

/// A region whose box starts below this height (`0.1`) begins a new line.
pub const NEW_LINE_BELOW: i32 = 100_000;

/// One ranked text hypothesis of a region, with its confidence in millionths.
pub struct Candidate {
    pub text: String,
    pub confidence: i32,
}

/// A box in normalized image coordinates (millionths), origin at the bottom left.
#[derive(Clone, Copy, Debug, PartialEq, Eq)]
pub struct BoundingBox {
    pub x: i32,
    pub y: i32,
    pub width: i32,
    pub height: i32,
}

/// A block of text found by an engine: its ranked candidates and where it lies.
pub struct RecognizedRegion {
    pub candidates: Vec<Candidate>,
    pub bounding_box: BoundingBox,
}

/// The outcome of a recognition: the text and an aggregate confidence in millionths.
pub struct OcrResult {
    pub text: String,
    pub confidence: u32,
}

/// The first eligible candidate at or after position `i`, among the first
/// `MAX_CANDIDATES`.
pub open spec fn first_eligible_from(cs: Seq<Candidate>, i: int) -> Option<Candidate>
    decreases MAX_CANDIDATES - i,
{
    if i < 0 || i >= cs.len() || i >= MAX_CANDIDATES {
        None
    } else if cs[i].confidence >= MIN_CONFIDENCE {
        Some(cs[i])
    } else {
        first_eligible_from(cs, i + 1)
    }
}

/// The candidate that a region contributes, if any.
pub open spec fn chosen_candidate(cs: Seq<Candidate>) -> Option<Candidate> {
    first_eligible_from(cs, 0)
}

/// What is inserted before a non-first piece of text, by the height of its box.
pub open spec fn separator(y: i32) -> Seq<char> {
    if y < NEW_LINE_BELOW {
        seq!['\n']
    } else {
        seq![' ']
    }
}

/// Appends `s` to `acc`; a separator goes between them only when both are non-empty.
pub open spec fn join_text(acc: Seq<char>, y: i32, s: Seq<char>) -> Seq<char> {
    if s.len() == 0 {
        acc
    } else if acc.len() == 0 {
        s
    } else {
        acc + separator(y) + s
    }
}

/// The text assembled from a list of regions, in their given order.
pub open spec fn assembled_text(rs: Seq<RecognizedRegion>) -> Seq<char>
    decreases rs.len(),
{
    if rs.len() == 0 {
        Seq::empty()
    } else {
        let prev = assembled_text(rs.drop_last());
        match chosen_candidate(rs.last().candidates@) {
            Some(c) => join_text(prev, rs.last().bounding_box.y, c.text@),
            None => prev,
        }
    }
}

/// How many regions contribute a candidate.
pub open spec fn contributing_count(rs: Seq<RecognizedRegion>) -> nat
    decreases rs.len(),
{
    if rs.len() == 0 {
        0
    } else {
        let prev = contributing_count(rs.drop_last());
        match chosen_candidate(rs.last().candidates@) {
            Some(c) => prev + 1,
            None => prev,
        }
    }
}

/// The sum of the confidences of the contributed candidates.
pub open spec fn confidence_total(rs: Seq<RecognizedRegion>) -> int
    decreases rs.len(),
{
    if rs.len() == 0 {
        0
    } else {
        let prev = confidence_total(rs.drop_last());
        match chosen_candidate(rs.last().candidates@) {
            Some(c) => prev + c.confidence,
            None => prev,
        }
    }
}

/// What assembling `rs` yields: `NoTextRecognized` when no region contributes,
/// otherwise the assembled text and the (floored) mean confidence.
pub open spec fn assembles(rs: Seq<RecognizedRegion>, r: Result<OcrResult, OcrError>) -> bool {
    match r {
        Ok(res) => {
            &&& contributing_count(rs) > 0
            &&& res.text@ == assembled_text(rs)
            &&& res.confidence as int == confidence_total(rs) / contributing_count(rs) as int
        },
        Err(e) => contributing_count(rs) == 0 && e == OcrError::NoTextRecognized,
    }
}

/// Every candidate's confidence is at most `1.0`.
pub open spec fn confidences_at_most_one(rs: Seq<RecognizedRegion>) -> bool {
    forall|i: int, j: int|
        0 <= i < rs.len() && 0 <= j < rs[i].candidates@.len() ==> #[trigger] rs[i].candidates@[j].confidence
            <= FIXED_ONE
}

proof fn lemma_first_eligible_nonnegative(cs: Seq<Candidate>, i: int)
    ensures
        first_eligible_from(cs, i) matches Some(c) ==> c.confidence >= MIN_CONFIDENCE,
        forall|c: Candidate|
            first_eligible_from(cs, i) == Some(c) ==> exists|j: int|
                0 <= j < cs.len() && #[trigger] cs[j] == c,
    decreases MAX_CANDIDATES - i,
{
    if !(i < 0 || i >= cs.len() || i >= MAX_CANDIDATES) && !(cs[i].confidence >= MIN_CONFIDENCE) {
        lemma_first_eligible_nonnegative(cs, i + 1);
    }
}

proof fn lemma_total_bounds(rs: Seq<RecognizedRegion>)
    ensures
        0 <= confidence_total(rs),
        contributing_count(rs) <= rs.len(),
        confidences_at_most_one(rs) ==> confidence_total(rs) <= contributing_count(rs)
            * FIXED_ONE,
    decreases rs.len(),
{
    if rs.len() > 0 {
        let front = rs.drop_last();
        lemma_total_bounds(front);
        lemma_first_eligible_nonnegative(rs.last().candidates@, 0);
        if confidences_at_most_one(rs) {
            assert forall|i: int, j: int|
                0 <= i < front.len() && 0 <= j < front[i].candidates@.len() implies #[trigger] front[i].candidates@[j].confidence
                <= FIXED_ONE by {
                assert(front[i] == rs[i]);
            }
            assert(confidences_at_most_one(front));
            if let Some(c) = chosen_candidate(rs.last().candidates@) {
                let j = choose|j: int|
                    0 <= j < rs.last().candidates@.len() && #[trigger] rs.last().candidates@[j]
                        == c;
                assert(rs[rs.len() - 1].candidates@[j].confidence <= FIXED_ONE);
            }
        }
    }
}

proof fn lemma_mean_bounded(total: int, count: int, bound: int)
    requires
        0 <= total <= count * bound,
        count > 0,
        bound >= 0,
    ensures
        0 <= total / count <= bound,
{
    assert(0 <= total / count <= bound) by (nonlinear_arith)
        requires
            0 <= total <= count * bound,
            count > 0,
            bound >= 0,
    ;
}

/// Whether a region contributes a non-empty piece of text.
pub open spec fn contributes_nonempty(r: RecognizedRegion) -> bool {
    chosen_candidate(r.candidates@) matches Some(c) && c.text@.len() > 0
}

/// The text a region contributes (empty when it contributes nothing).
pub open spec fn chosen_text(r: RecognizedRegion) -> Seq<char> {
    match chosen_candidate(r.candidates@) {
        Some(c) => c.text@,
        None => Seq::empty(),
    }
}

/// The regions' texts with, before each one but the first, the separator that
/// its own box selects.
pub open spec fn separated_join(rs: Seq<RecognizedRegion>) -> Seq<char>
    decreases rs.len(),
{
    if rs.len() == 0 {
        Seq::empty()
    } else if rs.len() == 1 {
        chosen_text(rs[0])
    } else {
        separated_join(rs.drop_last()) + separator(rs.last().bounding_box.y) + chosen_text(
            rs.last(),
        )
    }
}

/// When every region of a non-empty list contributes non-empty text, the
/// assembled text is non-empty and is exactly those texts in order, each after
/// the first preceded by a newline if its box starts below `NEW_LINE_BELOW`
/// and by a space otherwise.
pub proof fn lemma_separators_follow_boxes(rs: Seq<RecognizedRegion>)
    requires
        rs.len() > 0,
        forall|i: int| 0 <= i < rs.len() ==> contributes_nonempty(#[trigger] rs[i]),
    ensures
        assembled_text(rs) == separated_join(rs),
        assembled_text(rs).len() > 0,
    decreases rs.len(),
{
    let front = rs.drop_last();
    assert(contributes_nonempty(rs[rs.len() - 1]));
    if rs.len() > 1 {
        assert forall|i: int| 0 <= i < front.len() implies contributes_nonempty(#[trigger] front[i]) by {
            assert(front[i] == rs[i]);
        }
        lemma_separators_follow_boxes(front);
    } else {
        assert(assembled_text(front) == Seq::<char>::empty());
        assert(rs.last() == rs[0]);
    }
}

/// Assembling the same region list twice gives the same outcome.
pub proof fn lemma_assembly_deterministic(
    rs: Seq<RecognizedRegion>,
    r1: Result<OcrResult, OcrError>,
    r2: Result<OcrResult, OcrError>,
)
    requires
        assembles(rs, r1),
        assembles(rs, r2),
    ensures
        r1 is Ok <==> r2 is Ok,
        r1 matches Ok(a) ==> (r2 matches Ok(b) && a.text@ == b.text@ && a.confidence
            == b.confidence),
        r1 matches Err(e) ==> r2 == Err::<OcrResult, OcrError>(e),
{
}

/// When at least one region contributes and every candidate's confidence is
/// at most `1.0`, the aggregate confidence lies in `[0, 1.0]`.
pub proof fn lemma_confidence_in_unit_range(
    rs: Seq<RecognizedRegion>,
    r: Result<OcrResult, OcrError>,
)
    requires
        assembles(rs, r),
        contributing_count(rs) > 0,
        confidences_at_most_one(rs),
    ensures
        r matches Ok(res) && 0 <= res.confidence <= FIXED_ONE,
{
    lemma_total_bounds(rs);
    lemma_mean_bounded(confidence_total(rs), contributing_count(rs) as int, FIXED_ONE as int);
}

/// An empty region list is always rejected with `NoTextRecognized`.
pub proof fn lemma_empty_list_rejected(r: Result<OcrResult, OcrError>)
    requires
        assembles(Seq::empty(), r),
    ensures
        r == Err::<OcrResult, OcrError>(OcrError::NoTextRecognized),
{
}

/// Position of the candidate a region contributes, if any.
fn choose_candidate(cs: &Vec<Candidate>) -> (r: Option<usize>)
    ensures
        match r {
            Some(i) => i < cs.len() && chosen_candidate(cs@) == Some(cs@[i as int]),
            None => chosen_candidate(cs@) is None,
        },
{
    let limit = if cs.len() < MAX_CANDIDATES {
        cs.len()
    } else {
        MAX_CANDIDATES
    };
    let mut i: usize = 0;
    while i < limit
        invariant
            limit <= cs.len(),
            limit <= MAX_CANDIDATES,
            limit == cs.len() || limit == MAX_CANDIDATES,
            i <= limit,
            chosen_candidate(cs@) == first_eligible_from(cs@, i as int),
        decreases limit - i,
    {
        if cs[i].confidence >= MIN_CONFIDENCE {
            return Some(i);
        }
        i += 1;
    }
    None
}

/// Assembles the regions of a multi-region engine into one text and a mean
/// confidence. Regions keep their order; each contributes its first eligible
/// candidate among the first `MAX_CANDIDATES`; a non-empty piece of text after
/// earlier text is preceded by a newline when its box starts below
/// `NEW_LINE_BELOW`, else by a space. Fails with `NoTextRecognized` when no
/// region contributes, in particular when the list is empty.
pub fn assemble_regions(regions: &Vec<RecognizedRegion>) -> (r: Result<OcrResult, OcrError>)
    ensures
        assembles(regions@, r),
        regions@.len() == 0 ==> r == Err::<OcrResult, OcrError>(OcrError::NoTextRecognized),
        r is Ok <==> contributing_count(regions@) > 0,
        confidences_at_most_one(regions@) ==> (r matches Ok(res) ==> res.confidence <= FIXED_ONE),
{
    let mut text = String::new();
    let mut total: u128 = 0;
    let mut used: usize = 0;
    let mut k: usize = 0;
    while k < regions.len()
        invariant
            k <= regions.len(),
            text@ == assembled_text(regions@.subrange(0, k as int)),
            total as int == confidence_total(regions@.subrange(0, k as int)),
            used as int == contributing_count(regions@.subrange(0, k as int)),
            used <= k,
            total <= used as int * 0x7fff_ffff,
        decreases regions.len() - k,
    {
        let region = &regions[k];
        let ghost prefix = regions@.subrange(0, k + 1);
        assert(prefix.drop_last() == regions@.subrange(0, k as int));
        assert(prefix.last() == *region);
        match choose_candidate(&region.candidates) {
            Some(i) => {
                let c = &region.candidates[i];
                proof {
                    lemma_first_eligible_nonnegative(region.candidates@, 0);
                }
                if !c.text.as_str().is_empty() {
                    if !text.as_str().is_empty() {
                        if region.bounding_box.y < NEW_LINE_BELOW {
                            proof {
                                reveal_strlit("\n");
                            }
                            text.append("\n");
                        } else {
                            proof {
                                reveal_strlit(" ");
                            }
                            text.append(" ");
                        }
                    }
                    text.append(c.text.as_str());
                }
                total = total + c.confidence as u128;
                used = used + 1;
            },
            None => {},
        }
        k = k + 1;
    }
    assert(regions@.subrange(0, regions@.len() as int) == regions@);
    if used == 0 {
        return Err(OcrError::NoTextRecognized);
    }
    proof {
        lemma_mean_bounded(total as int, used as int, 0x7fff_ffff);
        lemma_total_bounds(regions@);
        if confidences_at_most_one(regions@) {
            lemma_mean_bounded(total as int, used as int, FIXED_ONE as int);
        }
    }
    let confidence = (total / (used as u128)) as u32;
    Ok(OcrResult { text, confidence })
}

/// The result of an engine that reports one flat block of text and no
/// confidence: the text verbatim, with confidence `1.0`.
pub fn single_block_result(text: String) -> (r: OcrResult)
    ensures
        r.text@ == text@,
        r.confidence == FIXED_ONE,
{
    OcrResult { text, confidence: FIXED_ONE as u32 }
}

} // verus!
