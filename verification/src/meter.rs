//! The plain Braille meter: levels drawn in pairs, without a playback mark.

use vstd::prelude::*;
use crate::formatter::DOTS;
use crate::text::push_char;

verus! {

/// The level drawn in the right column of cell `i`: the level after the
/// left one, or zero when the left one is the last.
pub open spec fn right_of(levels: Seq<u32>, i: int) -> int {
    if 2 * i + 1 < levels.len() {
        levels[2 * i + 1] as int
    } else {
        0
    }
}

/// One cell of the plain table per pair of levels; an odd last level gets an
/// empty right column.
pub open spec fn meter_text(levels: Seq<u32>) -> Seq<char> {
    Seq::new(
        (levels.len() + 1) / 2,
        |i: int| DOTS[0][levels[2 * i] as int][right_of(levels, i)],
    )
}

/// Renders levels of at most four dots as Braille cells, two levels per
/// cell.
pub fn dots(levels: &[u32]) -> (r: String)
    requires
        forall|i: int| 0 <= i < levels@.len() ==> #[trigger] levels@[i] <= 4,
    ensures
        r@ == meter_text(levels@),
{
    let cells = levels.len() / 2 + levels.len() % 2;
    let ghost expected = meter_text(levels@);
    let mut out = String::new();
    let mut i: usize = 0;
    while i < cells
        invariant
            cells == (levels.len() + 1) / 2,
            forall|k: int| 0 <= k < levels@.len() ==> #[trigger] levels@[k] <= 4,
            expected == meter_text(levels@),
            i <= cells,
            out@ == expected.take(i as int),
        decreases cells - i,
    {
        let left = levels[2 * i] as usize;
        let right: usize = if 2 * i + 1 < levels.len() {
            levels[2 * i + 1] as usize
        } else {
            0
        };
        push_char(&mut out, DOTS[0][left][right]);
        i = i + 1;
        assert(out@ =~= expected.take(i as int));
    }
    assert(expected.take(cells as int) =~= expected);
    out
}

} // verus!
