//! The packed 32-bit state word of a node: four byte lanes.
//!
//! Lane 0 is the leaf flag (nonzero means leaf); lanes 1, 2 and 3 are the
//! red, green and blue channels.

use vstd::prelude::*;

verus! {

/// The byte in lane `i` (0 to 3) of `state`.
pub open spec fn lane(state: u32, i: int) -> int {
    if i == 0 {
        state as int % 256
    } else if i == 1 {
        (state as int / 0x100) % 256
    } else if i == 2 {
        (state as int / 0x1_0000) % 256
    } else {
        (state as int / 0x100_0000) % 256
    }
}

/// The word whose four lanes are `flag`, `r`, `g` and `b`.
pub open spec fn packed(flag: u8, r: u8, g: u8, b: u8) -> u32 {
    (flag as int + 0x100 * r as int + 0x1_0000 * g as int + 0x100_0000 * b as int) as u32
}

/// Whether the leaf flag of `state` is set.
pub open spec fn leaf_flag(state: u32) -> bool {
    lane(state, 0) != 0
}

/// The three colour lanes of `state`.
pub open spec fn color_of(state: u32) -> (u8, u8, u8) {
    (lane(state, 1) as u8, lane(state, 2) as u8, lane(state, 3) as u8)
}

/// `state` with lane 0 replaced by 1 or 0 and the colour lanes kept.
pub open spec fn with_leaf_flag(state: u32, leaf: bool) -> u32 {
    packed(if leaf { 1u8 } else { 0u8 }, lane(state, 1) as u8, lane(state, 2) as u8, lane(state, 3) as u8)
}

/// Packs a leaf: flag lane 1 and the three channels.
pub fn pack_leaf(r: u8, g: u8, b: u8) -> (state: u32)
    ensures
        state == packed(1, r, g, b),
{
    let mut data: u32 = 0;
    data |= 1u32;
    data |= (r as u32) << 8;
    data |= (g as u32) << 16;
    data |= (b as u32) << 24;
    assert(data == 1u32 + 0x100u32 * (r as u32) + 0x1_0000u32 * (g as u32) + 0x100_0000u32 * (b as u32)
        && 1u32 + 0x100u32 * (r as u32) + 0x1_0000u32 * (g as u32) + 0x100_0000u32 * (b as u32) < 0x1_0000_0000u64) by (bit_vector)
        requires
            data == (((0u32 | 1u32) | ((r as u32) << 8)) | ((g as u32) << 16)) | ((b as u32) << 24),
    ;
    data
}

/// Reads the leaf flag.
pub fn read_leaf_flag(state: u32) -> (leaf: bool)
    ensures
        leaf == leaf_flag(state),
{
    let low: u32 = state & 0xFF;
    assert(low == state % 256) by (bit_vector)
        requires
            low == state & 0xFF,
    ;
    low != 0
}

/// Reads the three colour lanes.
pub fn read_color(state: u32) -> (rgb: (u8, u8, u8))
    ensures
        rgb == color_of(state),
{
    let r: u32 = (state & (0xFF << 8)) >> 8;
    let g: u32 = (state & (0xFF << 16)) >> 16;
    let b: u32 = (state & (0xFF << 24)) >> 24;
    assert(r == (state / 0x100) % 256 && g == (state / 0x1_0000) % 256 && b == (state / 0x100_0000) % 256)
        by (bit_vector)
        requires
            r == (state & (0xFFu32 << 8)) >> 8,
            g == (state & (0xFFu32 << 16)) >> 16,
            b == (state & (0xFFu32 << 24)) >> 24,
    ;
    (r as u8, g as u8, b as u8)
}

/// Overwrites the leaf flag lane and keeps the colour lanes.
pub fn write_leaf_flag(state: u32, leaf: bool) -> (next: u32)
    ensures
        next == with_leaf_flag(state, leaf),
{
    let cleared: u32 = state & (!0xFFu32);
    let flag: u32 = if leaf { 1 } else { 0 };
    let next: u32 = cleared | flag;
    assert(next == flag + 0x100u32 * ((state / 0x100) % 256) + 0x1_0000u32 * ((state / 0x1_0000) % 256)
        + 0x100_0000u32 * ((state / 0x100_0000) % 256)) by (bit_vector)
        requires
            next == (state & (!0xFFu32)) | flag,
            flag == 0 || flag == 1,
    ;
    next
}

/// Each lane of a packed word is the byte that was packed into it.
pub proof fn lemma_lanes_of_packed(flag: u8, r: u8, g: u8, b: u8)
    ensures
        lane(packed(flag, r, g, b), 0) == flag,
        lane(packed(flag, r, g, b), 1) == r,
        lane(packed(flag, r, g, b), 2) == g,
        lane(packed(flag, r, g, b), 3) == b,
{
    let s = packed(flag, r, g, b);
    let flag_word = flag as u32;
    let red = r as u32;
    let green = g as u32;
    let blue = b as u32;
    assert(s == flag_word + 0x100 * red + 0x1_0000 * green + 0x100_0000 * blue);
    assert(s % 256 == flag_word && (s / 0x100) % 256 == red && (s / 0x1_0000) % 256 == green && (s
        / 0x100_0000) % 256 == blue) by (bit_vector)
        requires
            s == flag_word + 0x100u32 * red + 0x1_0000u32 * green + 0x100_0000u32 * blue,
            flag_word < 256,
            red < 256,
            green < 256,
            blue < 256,
    ;
}

/// Packing a leaf and reading it back returns the flag and the very channels
/// that were packed.
pub proof fn lemma_pack_round_trip(r: u8, g: u8, b: u8)
    ensures
        leaf_flag(packed(1, r, g, b)),
        color_of(packed(1, r, g, b)) == (r, g, b),
{
    lemma_lanes_of_packed(1, r, g, b);
}

/// Rewriting the leaf flag sets it as asked and changes no colour lane.
pub proof fn lemma_with_leaf_flag(state: u32, leaf: bool)
    ensures
        leaf_flag(with_leaf_flag(state, leaf)) == leaf,
        color_of(with_leaf_flag(state, leaf)) == color_of(state),
        lane(with_leaf_flag(state, leaf), 0) == if leaf { 1int } else { 0int },
{
    lemma_lanes_of_packed(
        if leaf { 1u8 } else { 0u8 },
        lane(state, 1) as u8,
        lane(state, 2) as u8,
        lane(state, 3) as u8,
    );
}

/// The zero word is no leaf and has black colour lanes.
pub proof fn lemma_zero_state()
    ensures
        !leaf_flag(0),
        color_of(0) == (0u8, 0u8, 0u8),
{
}

} // verus!
