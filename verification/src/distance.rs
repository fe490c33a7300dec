//! Squared Euclidean distance between vectors.
use vstd::prelude::*;

use crate::formula::{value, Formula};
use crate::single::{Single, ZERO_BITS};
use crate::{DIMENSIONS, PACKED_DIMENSIONS};

verus! {

/// The signed value that a stored byte stands for.
pub open spec fn signed(byte: u8) -> int {
    if byte < 128 {
        byte as int
    } else {
        byte - 256
    }
}

/// The squared difference in one component.
pub open spec fn squared_delta(component: i8, byte: u8) -> int {
    (component - signed(byte)) * (component - signed(byte))
}

/// The sum of the squared differences in the first `count` components.
pub open spec fn squared_distance(query: Seq<i8>, candidate: Seq<u8>, count: nat) -> int
    decreases count,
{
    if count == 0 {
        0
    } else {
        squared_distance(query, candidate, (count - 1) as nat) + squared_delta(
            query[count - 1],
            candidate[count - 1],
        )
    }
}

/// The squared difference of a component and a stored byte.
fn component_distance(component: i8, byte: u8) -> (result: u32)
    ensures
        result == squared_delta(component, byte),
        result <= 65025,
{
    let stored: i32 = byte as i8 as i32;
    assert(byte < 128 ==> byte as i8 == byte) by (bit_vector);
    assert(byte >= 128 ==> byte as i8 == byte - 256) by (bit_vector);
    let delta: i32 = component as i32 - stored;
    assert(0 <= delta * delta <= 65025) by (nonlinear_arith)
        requires
            -255 <= delta <= 255,
    ;
    (delta * delta) as u32
}

/// Squared distance over the [`DIMENSIONS`] components of unpadded vectors.
pub fn squared_distance_i8(query: &[i8; DIMENSIONS], candidate: &[u8]) -> (sum: u32)
    requires
        candidate@.len() >= DIMENSIONS,
    ensures
        sum == squared_distance(query@, candidate@, DIMENSIONS as nat),
{
    let mut sum: u32 = 0;
    for idx in 0..DIMENSIONS
        invariant
            candidate@.len() >= DIMENSIONS,
            sum == squared_distance(query@, candidate@, idx as nat),
            sum <= 65025 * idx,
    {
        sum += component_distance(query[idx], candidate[idx]);
    }
    sum
}

/// Squared distance over the [`PACKED_DIMENSIONS`] components of padded vectors.
pub fn squared_distance_i8_scalar(query: &[i8; PACKED_DIMENSIONS], candidate: &[u8]) -> (sum: u32)
    requires
        candidate@.len() >= PACKED_DIMENSIONS,
    ensures
        sum == squared_distance(query@, candidate@, PACKED_DIMENSIONS as nat),
{
    let mut sum: u32 = 0;
    for idx in 0..PACKED_DIMENSIONS
        invariant
            candidate@.len() >= PACKED_DIMENSIONS,
            sum == squared_distance(query@, candidate@, idx as nat),
            sum <= 65025 * idx,
    {
        sum += component_distance(query[idx], candidate[idx]);
    }
    sum
}

/// The squared distance of vectors of numbers: the squared differences in the first
/// `count` components, added to `0.0` one after the other.
pub open spec fn distance_formula(
    query: Seq<Single>,
    candidate: Seq<Single>,
    count: nat,
) -> Formula
    decreases count,
{
    if count == 0 {
        value(ZERO_BITS)
    } else {
        Formula::Sum(
            Box::new(distance_formula(query, candidate, (count - 1) as nat)),
            Box::new(
                Formula::Square(
                    Box::new(
                        Formula::Difference(
                            Box::new(Formula::Value(query[count - 1])),
                            Box::new(Formula::Value(candidate[count - 1])),
                        ),
                    ),
                ),
            ),
        )
    }
}

/// The sum with the squared difference in one more component.
fn with_component(sum: Formula, component: Single, other: Single) -> (formula: Formula)
    ensures
        formula == Formula::Sum(
            Box::new(sum),
            Box::new(
                Formula::Square(
                    Box::new(
                        Formula::Difference(
                            Box::new(Formula::Value(component)),
                            Box::new(Formula::Value(other)),
                        ),
                    ),
                ),
            ),
        ),
{
    let delta = Formula::difference(Formula::Value(component), Formula::Value(other));
    Formula::sum(sum, Formula::square(delta))
}

/// Squared distance of a query to a centroid.
pub fn centroid_distance(query: &[Single; DIMENSIONS], centroid: &[Single; DIMENSIONS]) -> (sum:
    Formula)
    ensures
        sum == distance_formula(query@, centroid@, DIMENSIONS as nat),
{
    let mut sum: Formula = Formula::of_bits(ZERO_BITS);
    for idx in 0..DIMENSIONS
        invariant
            sum == distance_formula(query@, centroid@, idx as nat),
    {
        sum = with_component(sum, query[idx], centroid[idx]);
    }
    sum
}

/// Squared distance of padded vectors of numbers.
pub fn squared_distance_f32_scalar(
    query: &[Single; PACKED_DIMENSIONS],
    candidate: &[Single; PACKED_DIMENSIONS],
) -> (sum: Formula)
    ensures
        sum == distance_formula(query@, candidate@, PACKED_DIMENSIONS as nat),
{
    let mut sum: Formula = Formula::of_bits(ZERO_BITS);
    for idx in 0..PACKED_DIMENSIONS
        invariant
            sum == distance_formula(query@, candidate@, idx as nat),
    {
        sum = with_component(sum, query[idx], candidate[idx]);
    }
    sum
}

/// The distance depends on the first `count` components alone.
pub proof fn lemma_distance_of_prefix(
    query: Seq<i8>,
    candidate: Seq<u8>,
    other_query: Seq<i8>,
    other_candidate: Seq<u8>,
    count: nat,
)
    requires
        forall|i: int| 0 <= i < count ==> query[i] == other_query[i],
        forall|i: int| 0 <= i < count ==> candidate[i] == other_candidate[i],
    ensures
        squared_distance(query, candidate, count) == squared_distance(
            other_query,
            other_candidate,
            count,
        ),
    decreases count,
{
    if count > 0 {
        lemma_distance_of_prefix(
            query,
            candidate,
            other_query,
            other_candidate,
            (count - 1) as nat,
        );
    }
}

/// The vector followed by `lanes` further components, all equal to `fill`.
pub open spec fn padded<T>(vector: Seq<T>, lanes: nat, fill: T) -> Seq<T> {
    Seq::new(
        vector.len() + lanes,
        |i: int|
            if i < vector.len() {
                vector[i]
            } else {
                fill
            },
    )
}

/// Padding two vectors with zeros keeps their distance.
pub proof fn law_zero_lanes_keep_distance(query: Seq<i8>, candidate: Seq<u8>, lanes: nat)
    requires
        query.len() == candidate.len(),
    ensures
        squared_distance(
            padded(query, lanes, 0i8),
            padded(candidate, lanes, 0u8),
            query.len() + lanes,
        ) == squared_distance(query, candidate, query.len()),
    decreases lanes,
{
    let wide_query = padded(query, lanes, 0i8);
    let wide_candidate = padded(candidate, lanes, 0u8);
    if lanes == 0 {
        lemma_distance_of_prefix(wide_query, wide_candidate, query, candidate, query.len());
    } else {
        let fewer = (lanes - 1) as nat;
        law_zero_lanes_keep_distance(query, candidate, fewer);
        lemma_distance_of_prefix(
            wide_query,
            wide_candidate,
            padded(query, fewer, 0i8),
            padded(candidate, fewer, 0u8),
            query.len() + fewer,
        );
        assert(squared_delta(0i8, 0u8) == 0) by (nonlinear_arith);
    }
}

/// The distance is never negative, and it is zero between equal vectors only.
pub proof fn law_distance_separates(query: Seq<i8>, candidate: Seq<u8>, count: nat)
    ensures
        squared_distance(query, candidate, count) >= 0,
        squared_distance(query, candidate, count) == 0 <==> (forall|i: int|
            0 <= i < count ==> #[trigger] query[i] == signed(candidate[i])),
    decreases count,
{
    if count > 0 {
        let last = count - 1;
        law_distance_separates(query, candidate, last as nat);
        let delta = query[last] - signed(candidate[last]);
        assert(delta * delta >= 0 && (delta * delta == 0 <==> delta == 0)) by (nonlinear_arith);
        if squared_distance(query, candidate, count) == 0 {
            assert forall|i: int| 0 <= i < count implies #[trigger] query[i] == signed(
                candidate[i],
            ) by {
                if i < last {
                    assert(squared_distance(query, candidate, last as nat) == 0);
                }
            }
        }
    }
}

/// The distance is the same from either vector to the other, whichever of them is
/// the one that is stored as bytes.
pub proof fn law_distance_is_symmetric(
    a: Seq<i8>,
    a_stored: Seq<u8>,
    b: Seq<i8>,
    b_stored: Seq<u8>,
    count: nat,
)
    requires
        forall|i: int| 0 <= i < count ==> signed(#[trigger] a_stored[i]) == a[i],
        forall|i: int| 0 <= i < count ==> signed(#[trigger] b_stored[i]) == b[i],
    ensures
        squared_distance(a, b_stored, count) == squared_distance(b, a_stored, count),
    decreases count,
{
    if count > 0 {
        let last = count - 1;
        law_distance_is_symmetric(a, a_stored, b, b_stored, last as nat);
        assert(signed(a_stored[last]) == a[last] && signed(b_stored[last]) == b[last]);
        let delta = a[last] - b[last];
        assert(delta * delta == (-delta) * (-delta)) by (nonlinear_arith);
    }
}

/// Every component adds the square of its difference, a byte from 128 on standing
/// for a negative number, and nothing else adds to the distance.
pub proof fn law_components_add_their_squares(
    query: Seq<i8>,
    candidate: Seq<u8>,
    component: i8,
    byte: u8,
)
    requires
        query.len() == candidate.len(),
    ensures
        squared_distance(Seq::empty(), Seq::empty(), 0) == 0,
        ({
            let stored = if byte < 128 {
                byte as int
            } else {
                byte - 256
            };
            squared_distance(query.push(component), candidate.push(byte), query.len() + 1)
                == squared_distance(query, candidate, query.len()) + (component - stored) * (
            component - stored)
        }),
{
    lemma_distance_of_prefix(
        query.push(component),
        candidate.push(byte),
        query,
        candidate,
        query.len(),
    );
}

/// Moving one component away from the other vector's by one more, from a difference
/// of `apart`, adds `2 * apart + 1` to the distance.
pub proof fn law_distance_grows_with_every_step(
    query: Seq<i8>,
    candidate: Seq<u8>,
    at: int,
    further: i8,
)
    requires
        0 <= at < query.len(),
        query.len() == candidate.len(),
        further == query[at] + 1,
        query[at] >= signed(candidate[at]),
    ensures
        squared_distance(query.update(at, further), candidate, query.len()) == squared_distance(
            query,
            candidate,
            query.len(),
        ) + 2 * (query[at] - signed(candidate[at])) + 1,
{
    lemma_update_adds(query, candidate, at, further, query.len());
    let apart = query[at] - signed(candidate[at]);
    assert((apart + 1) * (apart + 1) == apart * apart + 2 * apart + 1) by (nonlinear_arith);
}

proof fn lemma_update_adds(query: Seq<i8>, candidate: Seq<u8>, at: int, further: i8, count: nat)
    requires
        0 <= at < query.len(),
        count <= query.len(),
    ensures
        squared_distance(query.update(at, further), candidate, count) == squared_distance(
            query,
            candidate,
            count,
        ) + if at < count {
            squared_delta(further, candidate[at]) - squared_delta(query[at], candidate[at])
        } else {
            0
        },
    decreases count,
{
    if count > 0 {
        lemma_update_adds(query, candidate, at, further, (count - 1) as nat);
    }
}

/// Every component adds the square of its difference to the formula of the distance,
/// behind those before it.
pub proof fn law_formula_adds_every_component(
    query: Seq<Single>,
    candidate: Seq<Single>,
    count: nat,
)
    ensures
        distance_formula(query, candidate, 0) == Formula::Value(Single { bits: 0 }),
        distance_formula(query, candidate, count + 1) == Formula::Sum(
            Box::new(distance_formula(query, candidate, count)),
            Box::new(
                Formula::Square(
                    Box::new(
                        Formula::Difference(
                            Box::new(Formula::Value(query[count as int])),
                            Box::new(Formula::Value(candidate[count as int])),
                        ),
                    ),
                ),
            ),
        ),
{
}

/// Padding appends the fill and changes nothing before it.
pub proof fn law_padding_appends<T>(vector: Seq<T>, lanes: nat, fill: T)
    ensures
        padded(vector, lanes, fill).len() == vector.len() + lanes,
        padded(vector, lanes, fill).take(vector.len() as int) == vector,
        forall|i: int|
            vector.len() <= i < vector.len() + lanes ==> #[trigger] padded(vector, lanes, fill)[i]
                == fill,
{
    assert(padded(vector, lanes, fill).take(vector.len() as int) =~= vector);
}

} // verus!
