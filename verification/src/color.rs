//! RGBA color values used by the engine's read-only display data, such as
//! the trail color a player is created with.

use vstd::prelude::*;

verus! {

/// An 8-bit-per-channel RGBA color.
#[derive(Clone, Copy, PartialEq, Eq, Structural, Debug)]
pub struct Color {
    pub r: u8,
    pub g: u8,
    pub b: u8,
    pub a: u8,
}

impl Color {
    pub fn new(r: u8, g: u8, b: u8, a: u8) -> (c: Color)
        ensures
            c == (Color { r, g, b, a }),
    {
        Color { r, g, b, a }
    }

    pub fn box_normal() -> (c: Color)
        ensures
            c == (Color { r: 0u8, g: 0u8, b: 0u8, a: 255u8 }),
    {
        Color::new(0, 0, 0, 255)
    }

    pub fn board_normal() -> (c: Color)
        ensures
            c == (Color { r: 160u8, g: 48u8, b: 48u8, a: 255u8 }),
    {
        Color::new(160, 48, 48, 255)
    }

    pub fn selection_mask() -> (c: Color)
        ensures
            c == (Color { r: 255u8, g: 255u8, b: 255u8, a: 128u8 }),
    {
        Color::new(255, 255, 255, 128)
    }

    pub fn wall() -> (c: Color)
        ensures
            c == (Color { r: 255u8, g: 208u8, b: 32u8, a: 255u8 }),
    {
        Color::new(255, 208, 32, 255)
    }

    pub fn ui() -> (c: Color)
        ensures
            c == (Color { r: 255u8, g: 255u8, b: 255u8, a: 255u8 }),
    {
        Color::new(255, 255, 255, 255)
    }

    pub fn player1_normal() -> (c: Color)
        ensures
            c == (Color { r: 0u8, g: 128u8, b: 0u8, a: 255u8 }),
    {
        Color::new(0, 128, 0, 255)
    }

    pub fn player1_trans() -> (c: Color)
        ensures
            c == (Color { r: 0u8, g: 64u8, b: 0u8, a: 255u8 }),
    {
        Color::new(0, 64, 0, 255)
    }

    pub fn player1_trace() -> (c: Color)
        ensures
            c == (Color { r: 0u8, g: 128u8, b: 0u8, a: 128u8 }),
    {
        Color::new(0, 128, 0, 128)
    }

    pub fn player2_normal() -> (c: Color)
        ensures
            c == (Color { r: 192u8, g: 128u8, b: 255u8, a: 255u8 }),
    {
        Color::new(192, 128, 255, 255)
    }

    pub fn player2_trans() -> (c: Color)
        ensures
            c == (Color { r: 96u8, g: 64u8, b: 128u8, a: 255u8 }),
    {
        Color::new(96, 64, 128, 255)
    }

    pub fn player2_trace() -> (c: Color)
        ensures
            c == (Color { r: 192u8, g: 128u8, b: 255u8, a: 128u8 }),
    {
        Color::new(192, 128, 255, 128)
    }
}

} // verus!
