//! Single-precision arithmetic as formulas.
use vstd::prelude::*;

use crate::single::Single;

verus! {

/// A formula over single-precision numbers. Every operation is the IEEE 754 one,
/// rounded to nearest, in the order that the nesting gives.
#[derive(Debug, PartialEq, Eq)]
pub enum Formula {
    /// A number.
    Value(Single),
    /// An integer, converted to the nearest number.
    Integer(i64),
    /// `a + b`.
    Sum(Box<Formula>, Box<Formula>),
    /// `a - b`.
    Difference(Box<Formula>, Box<Formula>),
    /// `a * b`.
    Product(Box<Formula>, Box<Formula>),
    /// `a * a`.
    Square(Box<Formula>),
    /// `a / b`.
    Quotient(Box<Formula>, Box<Formula>),
    /// The number restricted to the range from `0.0` to `1.0`.
    Clamped(Box<Formula>),
    /// The nearest whole number, halves away from zero.
    Rounded(Box<Formula>),
}

impl Clone for Formula {
    fn clone(&self) -> (formula: Formula)
        ensures
            formula == *self,
        decreases self,
    {
        match self {
            Formula::Value(value) => Formula::Value(*value),
            Formula::Integer(value) => Formula::Integer(*value),
            Formula::Sum(a, b) => Formula::sum((**a).clone(), (**b).clone()),
            Formula::Difference(a, b) => Formula::difference((**a).clone(), (**b).clone()),
            Formula::Product(a, b) => Formula::product((**a).clone(), (**b).clone()),
            Formula::Square(a) => Formula::square((**a).clone()),
            Formula::Quotient(a, b) => Formula::quotient((**a).clone(), (**b).clone()),
            Formula::Clamped(a) => Formula::Clamped(Box::new((**a).clone())),
            Formula::Rounded(a) => Formula::rounded((**a).clone()),
        }
    }
}

/// The formula of a number.
pub open spec fn value(bits: u32) -> Formula {
    Formula::Value(Single { bits })
}

/// The formula `clamp01(a / b)`.
pub open spec fn clamped_quotient(a: Formula, b: Formula) -> Formula {
    Formula::Clamped(Box::new(Formula::Quotient(Box::new(a), Box::new(b))))
}

impl Formula {
    /// The formula of the number with these bits.
    pub fn of_bits(bits: u32) -> (formula: Formula)
        ensures
            formula == value(bits),
            formula == Formula::Value(Single { bits }),
    {
        Formula::Value(Single { bits })
    }

    /// The formula `a + b`.
    pub fn sum(a: Formula, b: Formula) -> (formula: Formula)
        ensures
            formula == Formula::Sum(Box::new(a), Box::new(b)),
    {
        Formula::Sum(Box::new(a), Box::new(b))
    }

    /// The formula `a - b`.
    pub fn difference(a: Formula, b: Formula) -> (formula: Formula)
        ensures
            formula == Formula::Difference(Box::new(a), Box::new(b)),
    {
        Formula::Difference(Box::new(a), Box::new(b))
    }

    /// The formula `a * b`.
    pub fn product(a: Formula, b: Formula) -> (formula: Formula)
        ensures
            formula == Formula::Product(Box::new(a), Box::new(b)),
    {
        Formula::Product(Box::new(a), Box::new(b))
    }

    /// The formula `a * a`.
    pub fn square(a: Formula) -> (formula: Formula)
        ensures
            formula == Formula::Square(Box::new(a)),
    {
        Formula::Square(Box::new(a))
    }

    /// The formula `a / b`.
    pub fn quotient(a: Formula, b: Formula) -> (formula: Formula)
        ensures
            formula == Formula::Quotient(Box::new(a), Box::new(b)),
    {
        Formula::Quotient(Box::new(a), Box::new(b))
    }

    /// The formula `clamp01(a / b)`.
    pub fn clamped_quotient(a: Formula, b: Formula) -> (formula: Formula)
        ensures
            formula == clamped_quotient(a, b),
            formula == Formula::Clamped(Box::new(Formula::Quotient(Box::new(a), Box::new(b)))),
    {
        Formula::Clamped(Box::new(Formula::Quotient(Box::new(a), Box::new(b))))
    }

    /// The formula `round(a)`.
    pub fn rounded(a: Formula) -> (formula: Formula)
        ensures
            formula == Formula::Rounded(Box::new(a)),
    {
        Formula::Rounded(Box::new(a))
    }
}

} // verus!
