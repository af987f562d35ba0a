//! The probe colours pushed through a camera's colour matrix to find the
//! chromaticities of its primaries and of its white.
use vstd::prelude::*;

verus! {

/// The camera-space probes for white levels `whites` (red, green, blue), in
/// the order pure red, pure green, pure blue, white:
/// `(R, 0, 0)`, `(0, G, 0)`, `(0, 0, B)` and `(R, G, B)`.
pub fn probe_vectors(whites: [u16; 3]) -> (r: [[u16; 3]; 4])
    ensures
        r@[0]@ == seq![whites@[0], 0u16, 0u16],
        r@[1]@ == seq![0u16, whites@[1], 0u16],
        r@[2]@ == seq![0u16, 0u16, whites@[2]],
        r@[3]@ == whites@,
{
    let red = whites[0];
    let green = whites[1];
    let blue = whites[2];
    let r = [[red, 0, 0], [0, green, 0], [0, 0, blue], [red, green, blue]];
    assert(r@[0]@ =~= seq![whites@[0], 0u16, 0u16]);
    assert(r@[1]@ =~= seq![0u16, whites@[1], 0u16]);
    assert(r@[2]@ =~= seq![0u16, 0u16, whites@[2]]);
    assert(r@[3]@ =~= whites@);
    r
}

} // verus!
