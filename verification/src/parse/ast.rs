//! The part of the syntax tree that the storage engine works with.

use vstd::prelude::*;

verus! {

/// A comparison operator of a condition.
#[derive(Clone, Copy, Debug, PartialEq, Eq, Structural)]
pub enum CompType {
    /// `=`
    Equ,
    /// `!=`
    NEqu,
    /// `>`
    GThan,
    /// `<`
    SThan,
    /// `>=`
    GEThan,
    /// `<=`
    SEThan,
}

impl CompType {
    /// Whether the operator holds between a left and a right operand, given
    /// how the two are ordered: `ord` is negative where the left one is
    /// smaller, zero where they are equal, positive where it is greater.
    pub open spec fn holds(self, ord: int) -> bool {
        match self {
            CompType::Equ => ord == 0,
            CompType::NEqu => ord != 0,
            CompType::GThan => ord > 0,
            CompType::SThan => ord < 0,
            CompType::GEThan => ord >= 0,
            CompType::SEThan => ord <= 0,
        }
    }

    /// Decides the operator for operands ordered as `ord` says.
    pub fn test(self, ord: i8) -> (b: bool)
        ensures
            b == self.holds(ord as int),
    {
        match self {
            CompType::Equ => ord == 0,
            CompType::NEqu => ord != 0,
            CompType::GThan => ord > 0,
            CompType::SThan => ord < 0,
            CompType::GEThan => ord >= 0,
            CompType::SEThan => ord <= 0,
        }
    }
}

} // verus!
