//! The computable decisions of the widget layer, kept apart from
//! rendering: which colour a control paints for a given state.

use vstd::prelude::*;

verus! {

/// The fill of an unset check box.
pub const CHECK_BOX_BASE: u32 = 0xf7f7f7;

/// The fill of a set check box.
pub const CHECK_BOX_SET: u32 = 0x3b82f6;

/// The fill colour a check-box indicator paints: highlighted when set,
/// the base colour otherwise.
pub fn check_box(state: bool) -> (fill: u32)
    ensures
        fill == (if state {
            CHECK_BOX_SET
        } else {
            CHECK_BOX_BASE
        }),
{
    if state {
        CHECK_BOX_SET
    } else {
        CHECK_BOX_BASE
    }
}

/// Whether the board square at `index` is a light square: true exactly
/// when its file and rank have the same parity.
pub fn square_is_light(index: usize) -> (light: bool)
    requires
        index < 64,
    ensures
        light == (((index % 8) + (index / 8)) % 2 == 0),
{
    let file = index % 8;
    let rank = index / 8;
    (file + rank) % 2 == 0
}

} // verus!
