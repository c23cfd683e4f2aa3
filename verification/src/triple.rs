//! What the backend asks of a target triple.

use vstd::prelude::*;
use target_lexicon::Triple;

verus! {

/// A target triple of `target_lexicon`: architecture, vendor, operating
/// system, environment and binary format. Its contents are not looked into.
#[verifier::external_type_specification]
#[verifier::external_body]
pub struct ExTriple(Triple);

/// The number of bits of a pointer on the target that a triple names, as
/// `target_lexicon` has it; none where it knows no pointer width for the
/// triple.
pub uninterp spec fn triple_pointer_bits(triple: Triple) -> Option<u8>;

/// `Triple::pointer_width`, and `PointerWidth::bits` on what it gives.
///
/// The width is a function of the triple alone: of its architecture, and of
/// its environment where that narrows the pointers. `PointerWidth` has the
/// three widths 16, 32 and 64, and `bits` gives the number of the variant.
/// Nothing is claimed about which triple has which width.
#[verifier::external_body]
pub(crate) fn pointer_bits(triple: &Triple) -> (r: Option<u8>)
    ensures
        r == triple_pointer_bits(*triple),
        r matches Some(bits) ==> bits == 16 || bits == 32 || bits == 64,
{
    match triple.pointer_width() {
        Ok(width) => Some(width.bits()),
        Err(()) => None,
    }
}

} // verus!
