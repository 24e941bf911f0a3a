//! What ties a packet to the union it is a variant of.

use vstd::prelude::*;

verus! {

/// Implemented by a packet for each packet union that has it as a variant.
pub trait VariantOf<Enum>: Sized {
    /// The byte that marks this packet within the union.
    spec fn spec_discriminant_id() -> u8;

    /// The packet that `e` holds, where `e` is this variant.
    spec fn spec_destructure(e: Enum) -> Option<Self>;

    /// Returns the unique ID used to determine whether a value of the union
    /// is this variant.
    fn discriminant_id() -> (id: u8)
        ensures
            id == Self::spec_discriminant_id(),
    ;

    /// Destructures the union into this packet. Returns `None` if `e` is
    /// another variant.
    fn destructure(e: Enum) -> (r: Option<Self>)
        ensures
            r == Self::spec_destructure(e),
    ;
}

} // verus!
