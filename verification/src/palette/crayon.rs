//! The colours of a box of crayons. Each colour is written as `0xRRGGBB`.

use crate::rgb::{unpacked, RGB};
use vstd::prelude::*;

verus! {

pub const YELLOW: u32 = 0xFCE883;

pub const BLUE: u32 = 0x1F75FE;

pub const BLACK: u32 = 0x232323;

pub const VIOLET: u32 = 0x926EAE;

pub const BLUE_GREEN: u32 = 0x199EBD;

pub const RED_VIOLET: u32 = 0xC0448F;

pub const RED_ORANGE: u32 = 0xFF5349;

pub const YELLOW_GREEN: u32 = 0xC5E384;

pub const RED: u32 = 0xEE204D;

pub const ORANGE: u32 = 0xFF7538;

pub const DANDELION: u32 = 0xFDDB6D;

pub const CERULEAN: u32 = 0x1DACD6;

pub const WHITE: u32 = 0xEDEDED;

pub const VIOLET_RED: u32 = 0xF75394;

pub const GRAY: u32 = 0x95918C;

pub const INDIGO: u32 = 0x5D76CB;

pub const APRICOT: u32 = 0xFDD9B5;

pub const SCARLET: u32 = 0xFC2847;

pub const CARNATION_PINK: u32 = 0xFFAACC;

pub const GREEN: u32 = 0x1CAC78;

pub const BLUE_VIOLET: u32 = 0x7366BD;

pub const BROWN: u32 = 0xB4674D;

pub const GREEN_YELLOW: u32 = 0xF0E891;

pub const TRUE_BLACK: u32 = 0x000000;

pub const TRUE_WHITE: u32 = 0xFFFFFF;

/// The colours of the palette, in its order.
pub const ALL: [u32; 25] = [
    YELLOW,
    BLUE,
    BLACK,
    VIOLET,
    BLUE_GREEN,
    RED_VIOLET,
    RED_ORANGE,
    YELLOW_GREEN,
    RED,
    ORANGE,
    DANDELION,
    CERULEAN,
    WHITE,
    VIOLET_RED,
    GRAY,
    INDIGO,
    APRICOT,
    SCARLET,
    CARNATION_PINK,
    GREEN,
    BLUE_VIOLET,
    BROWN,
    GREEN_YELLOW,
    TRUE_BLACK,
    TRUE_WHITE,
];

/// The colours of the palette, in its order.
pub open spec fn all_colours() -> Seq<RGB<u8>> {
    Seq::new(ALL@.len(), |i: int| unpacked(ALL@[i]))
}

/// The colours of the palette, in its order.
pub fn all() -> (colours: Vec<RGB<u8>>)
    ensures
        colours@ == all_colours(),
{
    let mut colours: Vec<RGB<u8>> = Vec::new();
    let mut i: usize = 0;
    while i < ALL.len()
        invariant
            i <= ALL@.len(),
            colours@.len() == i,
            forall|k: int| 0 <= k < i ==> colours@[k] == unpacked(ALL@[k]),
        decreases ALL@.len() - i,
    {
        colours.push(RGB::from_hex(ALL[i]));
        i = i + 1;
    }
    assert(colours@ =~= all_colours());
    colours
}

} // verus!
