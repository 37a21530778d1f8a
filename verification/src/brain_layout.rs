//! Where the neurons of a critter's brain are drawn on the screen, and which
//! neuron a screen position points at.
use vstd::prelude::*;
use crate::geom::div_trunc;

verus! {

/// Size of a neuron on the screen, in pixels (square).
pub const NEURON_SCREEN_SIZE: i32 = 12;

/// Screen position of the top left corner of the brain.
pub const BRAIN_SCREEN_OFFSET: i32 = 10;

/// Screen position (top left corner) of neuron `idx`.
pub open spec fn spec_neuron_to_screen_pos(idx: (u32, u32)) -> (int, int) {
    (idx.0 * 12 + 10, idx.1 * 12 + 10)
}

/// The neuron drawn at screen position `screen` in a brain of `size` neurons, if any:
/// the offset from the brain's corner divided by the neuron size, rounding towards
/// zero, when that lies within the brain.
pub open spec fn spec_screen_pos_to_neuron(size: (u32, u32), screen: (i32, i32)) -> Option<(u32, u32)> {
    let x = div_trunc(screen.0 - 10, 12);
    let y = div_trunc(screen.1 - 10, 12);
    if 0 <= x < size.0 && 0 <= y < size.1 {
        Some((x as u32, y as u32))
    } else {
        None
    }
}

/// Screen position (top left corner) of neuron `idx`.
pub fn neuron_to_screen_pos(idx: (u32, u32)) -> (p: (i32, i32))
    requires
        idx.0 * 12 + 10 <= i32::MAX,
        idx.1 * 12 + 10 <= i32::MAX,
    ensures
        p.0 == spec_neuron_to_screen_pos(idx).0,
        p.1 == spec_neuron_to_screen_pos(idx).1,
{
    (idx.0 as i32 * NEURON_SCREEN_SIZE + BRAIN_SCREEN_OFFSET, idx.1 as i32 * NEURON_SCREEN_SIZE + BRAIN_SCREEN_OFFSET)
}

/// The neuron drawn at screen position `screen` in a brain of `size` neurons, if any.
pub fn screen_pos_to_neuron(size: (u32, u32), screen: (i32, i32)) -> (r: Option<(u32, u32)>)
    ensures
        r == spec_screen_pos_to_neuron(size, screen),
{
    let dx = screen.0 as i64 - BRAIN_SCREEN_OFFSET as i64;
    let dy = screen.1 as i64 - BRAIN_SCREEN_OFFSET as i64;
    let x = dx / 12;
    let y = dy / 12;
    assert(x == div_trunc(screen.0 - 10, 12) && y == div_trunc(screen.1 - 10, 12)) by {
        assert(x == div_trunc(dx as int, 12));
        assert(y == div_trunc(dy as int, 12));
    }
    if 0 <= x && x < size.0 as i64 && 0 <= y && y < size.1 as i64 {
        Some((x as u32, y as u32))
    } else {
        None
    }
}

/// The neuron drawn at a neuron's screen position is that neuron.
pub proof fn lemma_neuron_screen_round_trip(size: (u32, u32), idx: (u32, u32))
    requires
        idx.0 < size.0,
        idx.1 < size.1,
        idx.0 * 12 + 10 <= i32::MAX,
        idx.1 * 12 + 10 <= i32::MAX,
    ensures
        spec_screen_pos_to_neuron(size, (spec_neuron_to_screen_pos(idx).0 as i32, spec_neuron_to_screen_pos(idx).1 as i32)) == Some(idx),
{
    let p = spec_neuron_to_screen_pos(idx);
    assert((p.0 as i32) - 10 == idx.0 * 12);
    assert((p.1 as i32) - 10 == idx.1 * 12);
    assert(div_trunc(idx.0 * 12, 12) == idx.0) by (nonlinear_arith)
        requires
            idx.0 >= 0,
    {
        assert((idx.0 * 12) / 12 == idx.0);
    }
    assert(div_trunc(idx.1 * 12, 12) == idx.1) by (nonlinear_arith)
        requires
            idx.1 >= 0,
    {
        assert((idx.1 * 12) / 12 == idx.1);
    }
}

/// Every pixel of a neuron's square points at that neuron.
pub proof fn lemma_neuron_square(size: (u32, u32), idx: (u32, u32), dx: i32, dy: i32)
    requires
        idx.0 < size.0,
        idx.1 < size.1,
        0 <= dx < 12,
        0 <= dy < 12,
        idx.0 * 12 + 10 + dx <= i32::MAX,
        idx.1 * 12 + 10 + dy <= i32::MAX,
    ensures
        spec_screen_pos_to_neuron(size, ((idx.0 * 12 + 10 + dx) as i32, (idx.1 * 12 + 10 + dy) as i32)) == Some(idx),
{
    assert(div_trunc(idx.0 * 12 + dx, 12) == idx.0) by (nonlinear_arith)
        requires
            idx.0 >= 0,
            0 <= dx < 12,
    {
        assert((idx.0 * 12 + dx) / 12 == idx.0);
    }
    assert(div_trunc(idx.1 * 12 + dy, 12) == idx.1) by (nonlinear_arith)
        requires
            idx.1 >= 0,
            0 <= dy < 12,
    {
        assert((idx.1 * 12 + dy) / 12 == idx.1);
    }
}

} // verus!
