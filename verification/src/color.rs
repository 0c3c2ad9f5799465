//! Colours and the four-sided border whose sides each have one.
use vstd::prelude::*;

verus! {

/// A colour with 8-bit alpha, red, green and blue channels.
#[derive(Debug, Default, Clone, Copy, PartialEq, Eq, Structural)]
pub struct Argb8888 {
    pub r: u8,
    pub g: u8,
    pub b: u8,
    pub a: u8,
}

impl Argb8888 {
    pub open spec fn spec_transparent() -> Argb8888 {
        Argb8888 { r: 0, g: 0, b: 0, a: 0 }
    }

    /// No colour at all: every channel zero.
    pub fn transparent() -> (c: Argb8888)
        ensures
            c == Argb8888::spec_transparent(),
    {
        Argb8888 { r: 0, g: 0, b: 0, a: 0 }
    }

    pub fn new(r: u8, g: u8, b: u8, a: u8) -> (c: Argb8888)
        ensures
            c == (Argb8888 { r, g, b, a }),
    {
        Argb8888 { r, g, b, a }
    }
}

/// A gradient between two colours along a direction. The angle is held as
/// the bit pattern of its `f32` value.
#[derive(Debug, Clone, Copy, PartialEq, Eq, Structural)]
pub struct LinearGradient {
    pub from: Argb8888,
    pub to: Argb8888,
    pub degree_bits: u32,
}

/// How an area is filled: with one colour or a gradient.
#[derive(Debug, Clone, Copy, PartialEq, Eq, Structural)]
pub enum Color {
    Simple(Argb8888),
    LinearGradient(LinearGradient),
}

/// Something a border side can be painted with.
pub trait AsColor {
    spec fn color(&self) -> Color;

    fn as_color(&self) -> (r: Color)
        ensures
            r == self.color(),
    ;
}

/// A border side that is not painted.
#[derive(Debug, Default, Clone, Copy, PartialEq, Eq)]
pub struct NoColor;

impl AsColor for NoColor {
    open spec fn color(&self) -> Color {
        Color::Simple(Argb8888::spec_transparent())
    }

    /// Fully transparent.
    fn as_color(&self) -> (r: Color) {
        Color::Simple(Argb8888::transparent())
    }
}

impl AsColor for Argb8888 {
    open spec fn color(&self) -> Color {
        Color::Simple(*self)
    }

    /// The colour itself.
    fn as_color(&self) -> (r: Color) {
        Color::Simple(*self)
    }
}

/// A border with a left, right, top and bottom side.
#[derive(Debug, Default, Clone)]
pub struct Border<L, R, T, B> {
    left: L,
    right: R,
    top: T,
    bottom: B,
}

impl<L, R, T, B> Border<L, R, T, B> {
    pub closed spec fn left(&self) -> L {
        self.left
    }

    pub closed spec fn right(&self) -> R {
        self.right
    }

    pub closed spec fn top(&self) -> T {
        self.top
    }

    pub closed spec fn bottom(&self) -> B {
        self.bottom
    }

    /// A border with the given sides.
    pub fn new(left: L, right: R, top: T, bottom: B) -> (b: Border<L, R, T, B>)
        ensures
            b.left() == left,
            b.right() == right,
            b.top() == top,
            b.bottom() == bottom,
    {
        Border { left, right, top, bottom }
    }
}

impl<L: AsColor, R: AsColor, T: AsColor, B: AsColor> Border<L, R, T, B> {
    /// The colours of the sides: left, right, top, bottom.
    pub fn as_color_array(&self) -> (r: [Color; 4])
        ensures
            r@ == seq![
                self.left().color(),
                self.right().color(),
                self.top().color(),
                self.bottom().color(),
            ],
    {
        let r = [self.left.as_color(), self.right.as_color(), self.top.as_color(), self.bottom.as_color()];
        assert(r@ =~= seq![
            self.left().color(),
            self.right().color(),
            self.top().color(),
            self.bottom().color(),
        ]);
        r
    }
}

impl<R, T, B> Border<Argb8888, R, T, B> {
    /// Paints the left side; the other sides keep their colours.
    pub fn set_left(&mut self, color: Argb8888)
        ensures
            final(self).left() == color,
            final(self).right() == old(self).right(),
            final(self).top() == old(self).top(),
            final(self).bottom() == old(self).bottom(),
    {
        self.left = color;
    }

    pub fn get_left(&self) -> (r: Argb8888)
        ensures
            r == self.left(),
    {
        self.left
    }
}

impl<L, T, B> Border<L, Argb8888, T, B> {
    /// Paints the right side; the other sides keep their colours.
    pub fn set_right(&mut self, color: Argb8888)
        ensures
            final(self).right() == color,
            final(self).left() == old(self).left(),
            final(self).top() == old(self).top(),
            final(self).bottom() == old(self).bottom(),
    {
        self.right = color;
    }

    pub fn get_right(&self) -> (r: Argb8888)
        ensures
            r == self.right(),
    {
        self.right
    }
}

impl<L, R, B> Border<L, R, Argb8888, B> {
    /// Paints the top side; the other sides keep their colours.
    pub fn set_top(&mut self, color: Argb8888)
        ensures
            final(self).top() == color,
            final(self).left() == old(self).left(),
            final(self).right() == old(self).right(),
            final(self).bottom() == old(self).bottom(),
    {
        self.top = color;
    }

    pub fn get_top(&self) -> (r: Argb8888)
        ensures
            r == self.top(),
    {
        self.top
    }
}

impl<L, R, T> Border<L, R, T, Argb8888> {
    /// Paints the bottom side; the other sides keep their colours.
    pub fn set_bottom(&mut self, color: Argb8888)
        ensures
            final(self).bottom() == color,
            final(self).left() == old(self).left(),
            final(self).right() == old(self).right(),
            final(self).top() == old(self).top(),
    {
        self.bottom = color;
    }

    pub fn get_bottom(&self) -> (r: Argb8888)
        ensures
            r == self.bottom(),
    {
        self.bottom
    }
}

} // verus!
