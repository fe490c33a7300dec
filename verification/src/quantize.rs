//! Quantisation of vectors and the padding of their components.
use vstd::prelude::*;

use crate::distance::padded;
use crate::formula::{value, Formula};
use crate::single::{single, Single, MINUS_ONE_BITS, ONE_BITS, ZERO_BITS};
use crate::{DIMENSIONS, PACKED_DIMENSIONS};

verus! {

/// Bit pattern of `127.0`, the largest quantised magnitude.
pub const SCALE_BITS: u32 = 0x42fe_0000;

/// The whole number that a component is quantised to: 127 times the component,
/// restricted to the range from `-1.0` to `1.0`.
pub open spec fn quantized_component(component: Single) -> Formula {
    Formula::Rounded(
        Box::new(
            Formula::Product(
                Box::new(
                    Formula::Value(
                        component.clamp_spec(single(MINUS_ONE_BITS), single(ONE_BITS)),
                    ),
                ),
                Box::new(value(SCALE_BITS)),
            ),
        ),
    )
}

/// Quantises one component.
fn quantize_component(component: Single) -> (formula: Formula)
    ensures
        formula == quantized_component(component),
{
    let clamped: Single = component.clamp(
        Single { bits: MINUS_ONE_BITS },
        Single { bits: ONE_BITS },
    );
    Formula::rounded(Formula::product(Formula::Value(clamped), Formula::of_bits(SCALE_BITS)))
}

/// Quantises a vector: the formulas of the signed bytes that stand for its
/// components.
pub fn quantize_vector(vector: &[Single; DIMENSIONS]) -> (quantized: Vec<Formula>)
    ensures
        quantized@ == vector@.map_values(|component: Single| quantized_component(component)),
{
    let mut quantized: Vec<Formula> = Vec::new();
    for idx in 0..DIMENSIONS
        invariant
            quantized@.len() == idx,
            forall|i: int|
                0 <= i < idx ==> #[trigger] quantized@[i] == quantized_component(vector@[i]),
    {
        quantized.push(quantize_component(vector[idx]));
    }
    assert(quantized@ =~= vector@.map_values(
        |component: Single| quantized_component(component),
    ));
    quantized
}

/// Pads a quantised vector with zeros.
pub fn quantize_vector_padded(quantized: &[i8; DIMENSIONS]) -> (out: [i8; PACKED_DIMENSIONS])
    ensures
        out@ == padded(quantized@, (PACKED_DIMENSIONS - DIMENSIONS) as nat, 0i8),
        forall|i: int| 0 <= i < DIMENSIONS ==> #[trigger] out@[i] == quantized@[i],
        forall|i: int| DIMENSIONS <= i < PACKED_DIMENSIONS ==> #[trigger] out@[i] == 0,
{
    let mut out: [i8; PACKED_DIMENSIONS] = [0;PACKED_DIMENSIONS];
    for idx in 0..DIMENSIONS
        invariant
            forall|i: int| 0 <= i < idx ==> #[trigger] out@[i] == quantized@[i],
            forall|i: int| idx <= i < PACKED_DIMENSIONS ==> #[trigger] out@[i] == 0,
    {
        out[idx] = quantized[idx];
    }
    assert(out@ =~= padded(quantized@, (PACKED_DIMENSIONS - DIMENSIONS) as nat, 0i8));
    out
}

/// Pads a centroid with zeros.
pub fn pad_centroid(centroid: &[Single; DIMENSIONS]) -> (out: [Single; PACKED_DIMENSIONS])
    ensures
        out@ == padded(
            centroid@,
            (PACKED_DIMENSIONS - DIMENSIONS) as nat,
            single(ZERO_BITS),
        ),
        forall|i: int| 0 <= i < DIMENSIONS ==> #[trigger] out@[i] == centroid@[i],
        forall|i: int| DIMENSIONS <= i < PACKED_DIMENSIONS ==> (#[trigger] out@[i]).bits == 0,
{
    let mut out: [Single; PACKED_DIMENSIONS] = [Single { bits: ZERO_BITS };PACKED_DIMENSIONS];
    for idx in 0..DIMENSIONS
        invariant
            forall|i: int| 0 <= i < idx ==> #[trigger] out@[i] == centroid@[i],
            forall|i: int|
                idx <= i < PACKED_DIMENSIONS ==> #[trigger] out@[i] == single(ZERO_BITS),
    {
        out[idx] = centroid[idx];
    }
    assert(out@ =~= padded(
        centroid@,
        (PACKED_DIMENSIONS - DIMENSIONS) as nat,
        single(ZERO_BITS),
    ));
    out
}

/// The component that a quantised one stands for.
pub open spec fn dequantized_component(component: i8) -> Formula {
    Formula::Quotient(Box::new(Formula::Integer(component as i64)), Box::new(value(SCALE_BITS)))
}

/// Restores one component.
pub fn dequantize_component(component: i8) -> (formula: Formula)
    ensures
        formula == dequantized_component(component),
{
    Formula::quotient(Formula::Integer(component as i64), Formula::of_bits(SCALE_BITS))
}

/// Restores a centroid from the first [`DIMENSIONS`] components of a quantised
/// vector.
pub fn centroid_from_quantized(chunk: &[i8]) -> (centroid: Vec<Formula>)
    requires
        chunk@.len() >= DIMENSIONS,
    ensures
        centroid@ == chunk@.take(DIMENSIONS as int).map_values(
            |component: i8| dequantized_component(component),
        ),
{
    let mut centroid: Vec<Formula> = Vec::new();
    for idx in 0..DIMENSIONS
        invariant
            chunk@.len() >= DIMENSIONS,
            centroid@.len() == idx,
            forall|i: int|
                0 <= i < idx ==> #[trigger] centroid@[i] == dequantized_component(chunk@[i]),
    {
        centroid.push(dequantize_component(chunk[idx]));
    }
    assert(centroid@ =~= chunk@.take(DIMENSIONS as int).map_values(
        |component: i8| dequantized_component(component),
    ));
    centroid
}

/// A component is quantised to the whole number nearest to 127 times itself, after
/// restricting it to the range from `-1.0` to `1.0`, which leaves what lies within as
/// it is.
pub proof fn law_components_are_scaled(component: Single)
    ensures
        quantized_component(component) matches Formula::Rounded(product) && *product
            matches Formula::Product(number, scale) && *number matches Formula::Value(restricted)
            && *scale == Formula::Value(Single { bits: 0x42fe_0000 }) && {
            &&& component.lt(Single { bits: 0xbf80_0000 }) ==> restricted.bits == 0xbf80_0000
            &&& Single { bits: 0x3f80_0000 }.lt(component) ==> restricted.bits == 0x3f80_0000
            &&& !component.lt(Single { bits: 0xbf80_0000 }) && !Single { bits: 0x3f80_0000 }.lt(
                component,
            ) ==> restricted == component
        },
{
}

/// Restoring divides by what quantising multiplies with, and tells all quantised
/// components apart.
pub proof fn law_components_are_scaled_back(a: i8, b: i8)
    ensures
        dequantized_component(a) matches Formula::Quotient(part, scale) && *part
            == Formula::Integer(a as i64) && *scale == Formula::Value(
            Single { bits: 0x42fe_0000 },
        ),
        dequantized_component(a) == dequantized_component(b) <==> a == b,
{
}

} // verus!
