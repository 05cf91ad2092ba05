use vstd::prelude::*;

verus! {

/// A fill color, each channel held as the bit pattern of its `f32` value.
///
/// Colors are compared bit for bit: two colors are the same exactly when
/// their four channels have the same bits.
#[derive(Clone, Copy, Debug, PartialEq, Eq, Structural)]
pub struct Color {
    pub r: u32,
    pub g: u32,
    pub b: u32,
    pub a: u32,
}

impl Color {
    /// Creates a color from the bit patterns of its four channels.
    pub fn new(r: u32, g: u32, b: u32, a: u32) -> (c: Color)
        ensures
            c == (Color { r, g, b, a }),
    {
        Color { r, g, b, a }
    }

    /// The color that every channel of is zero: fully transparent black.
    pub open spec fn transparent_spec() -> Color {
        Color { r: 0, g: 0, b: 0, a: 0 }
    }

    /// Fully transparent black, the color a replay starts with.
    pub fn transparent() -> (c: Color)
        ensures
            c == Color::transparent_spec(),
    {
        Color { r: 0, g: 0, b: 0, a: 0 }
    }
}

/// How the colors of a draw combine with what is already on the surface.
#[derive(Clone, Copy, Debug, PartialEq, Eq, Structural)]
pub enum Blend {
    Alpha,
    Add,
    Lighter,
    Multiply,
    Invert,
}

/// What a draw does with the stencil buffer.
#[derive(Clone, Copy, Debug, PartialEq, Eq, Structural)]
pub enum Stencil {
    /// Writes the value to the stencil buffer.
    Clip(u8),
    /// Draws only where the stencil buffer holds the value.
    Inside(u8),
    /// Draws only where the stencil buffer does not hold the value.
    Outside(u8),
    /// Increments the stencil buffer.
    Increment,
}

/// A rectangle outside of which nothing is drawn.
#[derive(Clone, Copy, Debug, PartialEq, Eq, Structural)]
pub struct Scissor {
    pub x: u32,
    pub y: u32,
    pub width: u32,
    pub height: u32,
}

/// The blend, stencil and scissor settings that a draw runs with.
#[derive(Clone, Copy, Debug, PartialEq, Eq, Structural)]
pub struct DrawState {
    pub scissor: Option<Scissor>,
    pub stencil: Option<Stencil>,
    pub blend: Option<Blend>,
}

impl DrawState {
    /// Alpha blending, with no stencil test and no scissor.
    pub open spec fn alpha_spec() -> DrawState {
        DrawState { scissor: None, stencil: None, blend: Some(Blend::Alpha) }
    }

    /// The default draw state: alpha blending, no stencil test, no scissor.
    pub fn new_alpha() -> (s: DrawState)
        ensures
            s == DrawState::alpha_spec(),
    {
        DrawState { scissor: None, stencil: None, blend: Some(Blend::Alpha) }
    }
}

impl Default for DrawState {
    fn default() -> (s: DrawState)
        ensures
            s == DrawState::alpha_spec(),
    {
        DrawState::new_alpha()
    }
}

} // verus!
