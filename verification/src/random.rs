//! The random source: which cell the apple goes to.

use vstd::prelude::*;
use rand::Rng;

verus! {

/// Draws a cell index with `rand::thread_rng().gen_range(0..cells)`. The
/// contract says only what `Rng::gen_range` promises of every draw from a
/// half-open range that is not empty: the value lies in the range. This is
/// not proved here. Which value comes is left open: two draws may differ.
#[verifier::external_body]
pub(crate) fn random_cell(cells: i64) -> (c: i64)
    requires
        cells > 0,
    ensures
        0 <= c < cells,
{
    rand::thread_rng().gen_range(0..cells)
}

} // verus!
