//! The sixteen colours of the CGA palette. Each colour is written as `0xRRGGBB`.

use crate::rgb::{unpacked, RGB};
use vstd::prelude::*;

verus! {

pub const BLACK: u32 = 0x000000;

pub const BLUE: u32 = 0x0000AA;

pub const GREEN: u32 = 0x00AA00;

pub const CYAN: u32 = 0x00AAAA;

pub const RED: u32 = 0xAA0000;

pub const MAGENTA: u32 = 0xAA00AA;

pub const BROWN: u32 = 0xAA5500;

pub const LIGHT_GRAY: u32 = 0xAAAAAA;

pub const GRAY: u32 = 0x555555;

pub const LIGHT_BLUE: u32 = 0x5555FF;

pub const LIGHT_GREEN: u32 = 0x55FF55;

pub const LIGHT_CYAN: u32 = 0x55FFFF;

pub const LIGHT_RED: u32 = 0xFF5555;

pub const LIGHT_MAGENTA: u32 = 0xFF55FF;

pub const YELLOW: u32 = 0xFFFF55;

pub const WHITE: u32 = 0xFFFFFF;

/// The colours of the palette, in its order.
pub const ALL: [u32; 16] = [
    BLACK,
    BLUE,
    GREEN,
    CYAN,
    RED,
    MAGENTA,
    BROWN,
    LIGHT_GRAY,
    GRAY,
    LIGHT_BLUE,
    LIGHT_GREEN,
    LIGHT_CYAN,
    LIGHT_RED,
    LIGHT_MAGENTA,
    YELLOW,
    WHITE,
];

/// The colours of the palette, in its order.
pub open spec fn all_colours() -> Seq<RGB<u8>> {
    Seq::new(ALL@.len(), |i: int| unpacked(ALL@[i]))
}

/// The colours of the palette, in its order.
pub fn all() -> (colours: Vec<RGB<u8>>)
    ensures
        colours@ == all_colours(),
{
    let mut colours: Vec<RGB<u8>> = Vec::new();
    let mut i: usize = 0;
    while i < ALL.len()
        invariant
            i <= ALL@.len(),
            colours@.len() == i,
            forall|k: int| 0 <= k < i ==> colours@[k] == unpacked(ALL@[k]),
        decreases ALL@.len() - i,
    {
        colours.push(RGB::from_hex(ALL[i]));
        i = i + 1;
    }
    assert(colours@ =~= all_colours());
    colours
}

} // verus!
