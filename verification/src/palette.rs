//! Colours, and shares that a colour is mixed by.
use crate::quantity::{zero, Quantity};
use vstd::prelude::*;

verus! {

/// A colour; each channel in hundredths.
#[derive(Clone, Copy, Debug, PartialEq, Eq, Structural)]
pub struct Rgb {
    pub r: u8,
    pub g: u8,
    pub b: u8,
}

/// The colour with the given channels.
pub open spec fn rgb(r: u8, g: u8, b: u8) -> Rgb {
    Rgb { r, g, b }
}

/// How many colours factions have; more factions share them.
pub const PALETTE_SIZE: usize = 8;

/// The colour of the faction at position `i`.
pub open spec fn faction_rgb(i: nat) -> Rgb {
    let k = i % 8;
    if k == 0 {
        rgb(85, 25, 25)
    } else if k == 1 {
        rgb(25, 45, 85)
    } else if k == 2 {
        rgb(30, 70, 35)
    } else if k == 3 {
        rgb(90, 65, 15)
    } else if k == 4 {
        rgb(60, 35, 80)
    } else if k == 5 {
        rgb(20, 70, 70)
    } else if k == 6 {
        rgb(85, 45, 65)
    } else {
        rgb(55, 55, 55)
    }
}

/// The colour of the faction at position `i`.
pub fn faction_color(i: usize) -> (color: Rgb)
    ensures
        color == faction_rgb(i as nat),
{
    match i % PALETTE_SIZE {
        0 => Rgb { r: 85, g: 25, b: 25 },
        1 => Rgb { r: 25, g: 45, b: 85 },
        2 => Rgb { r: 30, g: 70, b: 35 },
        3 => Rgb { r: 90, g: 65, b: 15 },
        4 => Rgb { r: 60, g: 35, b: 80 },
        5 => Rgb { r: 20, g: 70, b: 70 },
        6 => Rgb { r: 85, g: 45, b: 65 },
        _ => Rgb { r: 55, g: 55, b: 55 },
    }
}

/// The first factions, as many as there are colours, have different colours.
pub proof fn faction_colors_differ(i: nat, j: nat)
    requires
        i < j < PALETTE_SIZE,
    ensures
        faction_rgb(i) != faction_rgb(j),
{
}

/// The colour of what nobody holds.
pub open spec fn neutral_rgb() -> Rgb {
    rgb(55, 58, 62)
}

/// The colour of what nobody holds.
pub fn neutral() -> (color: Rgb)
    ensures
        color == neutral_rgb(),
{
    Rgb { r: 55, g: 58, b: 62 }
}

/// The quantity 1.
pub open spec fn one() -> Quantity {
    Quantity { bits: 0x3f80_0000 }
}

/// A quantity brought into the range from 0 to 1; what is no number counts as 0.
pub open spec fn clamped(v: Quantity) -> Quantity {
    if !v.finite() {
        zero()
    } else if v.less(zero()) {
        zero()
    } else if one().less(v) {
        one()
    } else {
        v
    }
}

/// A share, from 0 to 1.
#[derive(Clone, Copy, Debug, PartialEq, Eq, Structural)]
pub struct Unit01 {
    share: Quantity,
}

impl View for Unit01 {
    type V = Quantity;

    closed spec fn view(&self) -> Quantity {
        self.share
    }
}

impl Unit01 {
    /// The share that a quantity stands for.
    pub fn new(v: Quantity) -> (share: Unit01)
        ensures
            share@ == clamped(v),
    {
        let zero = Quantity { bits: 0 };
        let one = Quantity { bits: 0x3f80_0000 };
        if !v.is_finite() {
            Unit01 { share: zero }
        } else if v.is_less(zero) {
            Unit01 { share: zero }
        } else if one.is_less(v) {
            Unit01 { share: one }
        } else {
            Unit01 { share: v }
        }
    }

    /// The share as a quantity.
    pub fn get(self) -> (share: Quantity)
        ensures
            share == self@,
    {
        self.share
    }
}

/// A share lies between 0 and 1, whatever it was made from.
pub proof fn share_is_between_0_and_1(v: Quantity)
    ensures
        zero().at_most(clamped(v)),
        clamped(v).at_most(one()),
{
    assert(!zero().nan());
    assert(!one().nan());
}

/// A quantity that is a share already stays as it is.
pub proof fn share_of_a_share(v: Quantity)
    requires
        zero().at_most(v),
        v.at_most(one()),
    ensures
        clamped(v) == v,
{
}

} // verus!
