//! The logical 128-bit decimal column type.
use vstd::prelude::*;

verus! {

/// Column type of 128-bit decimals with a fixed precision and scale.
#[derive(Debug, Default, Clone, Copy, PartialEq, Eq, Hash, PartialOrd, Ord, Structural)]
pub struct Decimal128Type {
    pub precision: u8,
    pub scale: i8,
}

impl Decimal128Type {
    /// Creates the type with the given precision and scale.
    pub fn new(precision: u8, scale: i8) -> (t: Decimal128Type)
        ensures
            t.precision == precision,
            t.scale == scale,
    {
        Decimal128Type { precision, scale }
    }

    /// The precision of the type.
    pub fn precision(&self) -> (r: u8)
        ensures
            r == self.precision,
    {
        self.precision
    }

    /// The scale of the type.
    pub fn scale(&self) -> (r: i8)
        ensures
            r == self.scale,
    {
        self.scale
    }
}

} // verus!
