//! Axis-aligned rectangles on the pixel grid, with anchored placement and
//! clamping.
//!
//! A [`Rect`] is four unsigned numbers and nothing else: every combination is
//! a value. Its far edges are the sums `x + width` and `y + height`, taken as
//! mathematical integers in every contract, so that no rectangle ever wraps
//! round. Where an operation has to hand an edge out as a `u32` it saturates.

use vstd::prelude::*;

verus! {

/// The anchor against which [`Rect::relative`] places a new rectangle.
#[derive(Debug, Clone, Copy, PartialEq, Eq, Structural)]
pub enum Position {
    Center,
    Left,
    Right,
    Top,
    Bottom,
}

/// A rectangle with its origin in the top left corner. A zero `width` or
/// `height` makes it an empty region.
#[derive(Debug, Clone, Copy, PartialEq, Eq, Structural)]
pub struct Rect {
    pub x: u32,
    pub y: u32,
    pub width: u32,
    pub height: u32,
}

/// `a - b`, or `0` where `b` exceeds `a`.
pub open spec fn monus(a: int, b: int) -> int {
    if a >= b {
        a - b
    } else {
        0
    }
}

/// `a` limited to what a `u32` holds.
pub open spec fn capped(a: int) -> int {
    if a > u32::MAX {
        u32::MAX as int
    } else {
        a
    }
}

impl Rect {
    /// The exclusive right edge, `x + width`.
    pub open spec fn right_edge(self) -> int {
        self.x + self.width
    }

    /// The exclusive bottom edge, `y + height`.
    pub open spec fn bottom_edge(self) -> int {
        self.y + self.height
    }

    /// `other` lies inside `self` on both axes.
    pub open spec fn encloses(self, other: Rect) -> bool {
        &&& self.x <= other.x
        &&& self.y <= other.y
        &&& other.right_edge() <= self.right_edge()
        &&& other.bottom_edge() <= self.bottom_edge()
    }

    pub open spec fn spec_right(&self) -> u32 {
        capped(self.right_edge()) as u32
    }

    pub open spec fn spec_bottom(&self) -> u32 {
        capped(self.bottom_edge()) as u32
    }

    pub open spec fn spec_center(&self) -> (u32, u32) {
        (capped(self.x + self.width / 2) as u32, capped(self.y + self.height / 2) as u32)
    }

    pub open spec fn spec_contains_width(&self, other: &Rect) -> bool {
        self.x <= other.x && self.width >= other.width
    }

    pub open spec fn spec_contains_height(&self, other: &Rect) -> bool {
        self.y <= other.y && self.height >= other.height
    }

    /// Both far edges count as inside: a point on `right_edge` or on
    /// `bottom_edge` is contained.
    pub open spec fn spec_contains_point(&self, x: u32, y: u32) -> bool {
        &&& self.x <= x <= self.right_edge()
        &&& self.y <= y <= self.bottom_edge()
    }

    pub open spec fn spec_clamp(&self, other: Rect) -> Rect {
        if self.spec_contains_point(other.x, other.y) {
            Rect {
                x: other.x,
                y: other.y,
                width: vstd::math::min(other.width as int, self.right_edge() - other.x) as u32,
                height: vstd::math::min(other.height as int, self.bottom_edge() - other.y) as u32,
            }
        } else {
            Rect { x: 0, y: 0, width: 0, height: 0 }
        }
    }

    pub open spec fn spec_at_center(&self, width: u32, height: u32) -> Rect {
        Rect {
            x: monus(self.spec_center().0 as int, width as int / 2) as u32,
            y: monus(self.spec_center().1 as int, height as int / 2) as u32,
            width,
            height,
        }
    }

    pub open spec fn spec_at_left(&self, width: u32, height: u32) -> Rect {
        Rect {
            x: monus(self.x as int, width as int) as u32,
            y: self.y,
            width: vstd::math::min(width as int, self.x as int) as u32,
            height,
        }
    }

    pub open spec fn spec_at_right(&self, width: u32, height: u32) -> Rect {
        Rect { x: self.spec_right(), y: self.y, width, height }
    }

    pub open spec fn spec_at_top(&self, width: u32, height: u32) -> Rect {
        Rect {
            x: self.x,
            y: monus(self.y as int, height as int) as u32,
            width,
            height: vstd::math::min(height as int, self.y as int) as u32,
        }
    }

    pub open spec fn spec_at_bottom(&self, width: u32, height: u32) -> Rect {
        Rect { x: self.x, y: self.spec_bottom(), width, height }
    }

    pub open spec fn spec_relative(&self, pos: Position, width: u32, height: u32) -> Rect {
        match pos {
            Position::Center => self.spec_at_center(width, height),
            Position::Left => self.spec_at_left(width, height),
            Position::Right => self.spec_at_right(width, height),
            Position::Top => self.spec_at_top(width, height),
            Position::Bottom => self.spec_at_bottom(width, height),
        }
    }

    pub fn new(x: u32, y: u32, width: u32, height: u32) -> (rect: Self)
        ensures
            rect == (Rect { x, y, width, height }),
    {
        Rect { x, y, width, height }
    }

    /// A rectangle of the given size anchored against `self`.
    ///
    /// `Center` puts the centre of the new rectangle on the centre of `self`,
    /// each centre being the origin plus half the extent, rounded down; an
    /// origin that would fall below zero is zero. `Left` and `Top` end the new
    /// rectangle where `self` begins and cut its extent on that axis down to
    /// the room there is before `self`. `Right` and `Bottom` begin it where
    /// `self` ends.
    #[verifier::when_used_as_spec(spec_relative)]
    pub fn relative(&self, pos: Position, width: u32, height: u32) -> (rect: Self)
        ensures
            rect == self.spec_relative(pos, width, height),
            pos == Position::Center ==> rect.width == width && rect.height == height,
            pos == Position::Left ==> rect.right_edge() == self.x,
            pos == Position::Top ==> rect.bottom_edge() == self.y,
    {
        match pos {
            Position::Center => self.at_center(width, height),
            Position::Left => self.at_left(width, height),
            Position::Right => self.at_right(width, height),
            Position::Top => self.at_top(width, height),
            Position::Bottom => self.at_bottom(width, height),
        }
    }

    /// `other` cut down to what lies inside `self`.
    ///
    /// An `other` whose origin `self` does not contain (see
    /// [`Rect::contains_point`]) gives the empty rectangle at the origin of
    /// the grid. Otherwise `other` keeps its origin, and its extent on each
    /// axis shrinks to end no later than `self` does.
    #[verifier::when_used_as_spec(spec_clamp)]
    pub fn clamp(&self, other: Rect) -> (rect: Self)
        ensures
            rect == self.spec_clamp(other),
            rect.width <= other.width,
            rect.height <= other.height,
            self.spec_contains_point(other.x, other.y) ==> self.encloses(rect),
    {
        if !self.contains_point(other.x, other.y) {
            return Rect::new(0, 0, 0, 0);
        }
        let mut rect = other;
        let bottom: u64 = self.y as u64 + self.height as u64;
        if other.y as u64 + other.height as u64 > bottom {
            rect.height = (bottom - other.y as u64) as u32;
        }
        let right: u64 = self.x as u64 + self.width as u64;
        if other.x as u64 + other.width as u64 > right {
            rect.width = (right - other.x as u64) as u32;
        }
        rect
    }

    #[verifier::when_used_as_spec(spec_contains_width)]
    pub fn contains_width(&self, other: &Rect) -> (contained: bool)
        ensures
            contained == self.spec_contains_width(other),
    {
        self.x <= other.x && self.width >= other.width
    }

    #[verifier::when_used_as_spec(spec_contains_height)]
    pub fn contains_height(&self, other: &Rect) -> (contained: bool)
        ensures
            contained == self.spec_contains_height(other),
    {
        self.y <= other.y && self.height >= other.height
    }

    #[verifier::when_used_as_spec(spec_contains_point)]
    pub fn contains_point(&self, x: u32, y: u32) -> (contained: bool)
        ensures
            contained == self.spec_contains_point(x, y),
    {
        self.x <= x && x <= self.right() && self.y <= y && y <= self.bottom()
    }

    #[verifier::when_used_as_spec(spec_at_center)]
    fn at_center(&self, width: u32, height: u32) -> (rect: Self)
        ensures
            rect == self.spec_at_center(width, height),
    {
        let (cx, cy) = self.center();
        let (hw, hh) = (width / 2, height / 2);

        let x = if hw > cx { 0 } else { cx - hw };
        let y = if hh > cy { 0 } else { cy - hh };

        Rect::new(x, y, width, height)
    }

    #[verifier::when_used_as_spec(spec_at_left)]
    fn at_left(&self, width: u32, height: u32) -> (rect: Self)
        ensures
            rect == self.spec_at_left(width, height),
    {
        let width = if width > self.x { self.x } else { width };
        let x = self.x - width;

        Rect::new(x, self.y, width, height)
    }

    #[verifier::when_used_as_spec(spec_at_right)]
    fn at_right(&self, width: u32, height: u32) -> (rect: Self)
        ensures
            rect == self.spec_at_right(width, height),
    {
        Rect::new(self.right(), self.y, width, height)
    }

    #[verifier::when_used_as_spec(spec_at_top)]
    fn at_top(&self, width: u32, height: u32) -> (rect: Self)
        ensures
            rect == self.spec_at_top(width, height),
    {
        let height = if height > self.y { self.y } else { height };
        let y = self.y - height;

        Rect::new(self.x, y, width, height)
    }

    #[verifier::when_used_as_spec(spec_at_bottom)]
    fn at_bottom(&self, width: u32, height: u32) -> (rect: Self)
        ensures
            rect == self.spec_at_bottom(width, height),
    {
        Rect::new(self.x, self.bottom(), width, height)
    }

    /// The bottom edge `y + height`, or `u32::MAX` where the sum is larger.
    #[verifier::when_used_as_spec(spec_bottom)]
    pub fn bottom(&self) -> (edge: u32)
        ensures
            edge == self.spec_bottom(),
            edge >= self.y,
            self.bottom_edge() <= u32::MAX ==> edge == self.bottom_edge(),
    {
        self.y.saturating_add(self.height)
    }

    /// The right edge `x + width`, or `u32::MAX` where the sum is larger.
    #[verifier::when_used_as_spec(spec_right)]
    pub fn right(&self) -> (edge: u32)
        ensures
            edge == self.spec_right(),
            edge >= self.x,
            self.right_edge() <= u32::MAX ==> edge == self.right_edge(),
    {
        self.x.saturating_add(self.width)
    }

    /// The point half the extent away from the origin, each coordinate
    /// rounded down and no larger than `u32::MAX`.
    #[verifier::when_used_as_spec(spec_center)]
    pub fn center(&self) -> (point: (u32, u32))
        ensures
            point == self.spec_center(),
    {
        ((self.width / 2).saturating_add(self.x), (self.height / 2).saturating_add(self.y))
    }
}

/// Clamping twice against the same rectangle changes nothing more.
pub proof fn lemma_clamp_idempotent(r: Rect, other: Rect)
    ensures
        r.spec_clamp(r.spec_clamp(other)) == r.spec_clamp(other),
{
}

} // verus!
