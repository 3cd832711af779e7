//! Rectangles on the pixel grid.

use vstd::prelude::*;

verus! {

/// The integer `d` as the unsigned 32-bit number that stands for it: itself,
/// or, where it is negative, counted back from 2^32.
pub open spec fn wrapped(d: int) -> int {
    if d >= 0 {
        d
    } else {
        d + 0x1_0000_0000
    }
}

/// A rectangle: its top left corner and its size.
#[derive(Debug, Clone, Copy, PartialEq, Eq, Structural)]
pub struct Rect {
    pub x: i32,
    pub y: i32,
    pub width: u32,
    pub height: u32,
}

fn wrap(d: i64) -> (r: u32)
    requires
        -0x1_0000_0000 < d < 0x1_0000_0000,
    ensures
        r == wrapped(d as int),
{
    if d >= 0 {
        d as u32
    } else {
        (d + 0x1_0000_0000) as u32
    }
}

impl Rect {
    /// The x coordinate right of the rectangle.
    pub open spec fn right_of(self) -> int {
        self.x + self.width
    }

    /// The y coordinate below the rectangle.
    pub open spec fn bottom_of(self) -> int {
        self.y + self.height
    }

    /// The x coordinate of the center.
    pub open spec fn center_x(self) -> int {
        self.x + self.width / 2
    }

    /// The y coordinate of the center.
    pub open spec fn center_y(self) -> int {
        self.y + self.height / 2
    }

    /// Whether the two rectangles have a pixel in common.
    pub open spec fn meets(self, other: Rect) -> bool {
        &&& self.right_of() > other.x
        &&& self.x < other.right_of()
        &&& self.y < other.bottom_of()
        &&& self.bottom_of() > other.y
    }

    /// From the right edge of the rectangle whose center lies further left to
    /// the left edge of the other; negative where the two overlap in x.
    pub open spec fn x_gap(self, other: Rect) -> int {
        if self.center_x() < other.center_x() {
            other.x - self.right_of()
        } else {
            self.x - other.right_of()
        }
    }

    /// From the bottom edge of the rectangle whose center lies further up to
    /// the top edge of the other; negative where the two overlap in y.
    pub open spec fn y_gap(self, other: Rect) -> int {
        if self.center_y() < other.center_y() {
            other.y - self.bottom_of()
        } else {
            self.y - other.bottom_of()
        }
    }

    fn right_wide(&self) -> (r: i64)
        ensures
            r == self.right_of(),
    {
        self.x as i64 + self.width as i64
    }

    fn bottom_wide(&self) -> (r: i64)
        ensures
            r == self.bottom_of(),
    {
        self.y as i64 + self.height as i64
    }

    fn center_x_wide(&self) -> (r: i64)
        ensures
            r == self.center_x(),
    {
        self.x as i64 + (self.width / 2) as i64
    }

    fn center_y_wide(&self) -> (r: i64)
        ensures
            r == self.center_y(),
    {
        self.y as i64 + (self.height / 2) as i64
    }

    fn x_gap_wide(&self, other: &Rect) -> (r: i64)
        ensures
            r == self.x_gap(*other),
    {
        if self.center_x_wide() < other.center_x_wide() {
            other.x as i64 - self.right_wide()
        } else {
            self.x as i64 - other.right_wide()
        }
    }

    fn y_gap_wide(&self, other: &Rect) -> (r: i64)
        ensures
            r == self.y_gap(*other),
    {
        if self.center_y_wide() < other.center_y_wide() {
            other.y as i64 - self.bottom_wide()
        } else {
            self.y as i64 - other.bottom_wide()
        }
    }

    #[inline]
    pub fn new(x: i32, y: i32, width: u32, height: u32) -> (rect: Rect)
        ensures
            rect == (Rect { x, y, width, height }),
    {
        Rect { x, y, width, height }
    }

    /// The rectangle of the given size whose center is `center`.
    #[inline]
    pub fn from_center(center: (i32, i32), width: u32, height: u32) -> (rect: Rect)
        requires
            center.0 - width / 2 >= i32::MIN,
            center.1 - height / 2 >= i32::MIN,
        ensures
            rect.x == center.0 - width / 2,
            rect.y == center.1 - height / 2,
            rect.width == width,
            rect.height == height,
    {
        let (cx, cy) = center;
        let x = cx - (width / 2) as i32;
        let y = cy - (height / 2) as i32;
        Rect::new(x, y, width, height)
    }

    #[inline]
    pub fn move_to(&mut self, x: i32, y: i32)
        ensures
            *final(self) == (Rect { x, y, ..*old(self) }),
    {
        self.x = x;
        self.y = y;
    }

    #[inline]
    pub fn moved_to(&self, x: i32, y: i32) -> (rect: Rect)
        ensures
            rect == (Rect { x, y, ..*self }),
    {
        Rect::new(x, y, self.width, self.height)
    }

    #[inline]
    pub fn move_by(&mut self, dx: i32, dy: i32)
        requires
            i32::MIN <= old(self).x + dx <= i32::MAX,
            i32::MIN <= old(self).y + dy <= i32::MAX,
        ensures
            final(self).x == old(self).x + dx,
            final(self).y == old(self).y + dy,
            final(self).width == old(self).width,
            final(self).height == old(self).height,
    {
        self.x += dx;
        self.y += dy;
    }

    #[inline]
    pub fn moved_by(&self, dx: i32, dy: i32) -> (rect: Rect)
        requires
            i32::MIN <= self.x + dx <= i32::MAX,
            i32::MIN <= self.y + dy <= i32::MAX,
        ensures
            rect.x == self.x + dx,
            rect.y == self.y + dy,
            rect.width == self.width,
            rect.height == self.height,
    {
        Rect::new(self.x + dx, self.y + dy, self.width, self.height)
    }

    /// Moves the rectangle so that its center is `pos`.
    #[inline]
    pub fn center_on(&mut self, pos: (i32, i32))
        requires
            pos.0 - old(self).width / 2 >= i32::MIN,
            pos.1 - old(self).height / 2 >= i32::MIN,
        ensures
            final(self).x == pos.0 - old(self).width / 2,
            final(self).y == pos.1 - old(self).height / 2,
            final(self).width == old(self).width,
            final(self).height == old(self).height,
    {
        let (x, y) = pos;
        self.x = x - (self.width / 2) as i32;
        self.y = y - (self.height / 2) as i32;
    }

    /// The rectangle of this size whose center is `pos`.
    #[inline]
    pub fn centered_on(&self, pos: (i32, i32)) -> (rect: Rect)
        requires
            pos.0 - self.width / 2 >= i32::MIN,
            pos.1 - self.height / 2 >= i32::MIN,
        ensures
            rect.x == pos.0 - self.width / 2,
            rect.y == pos.1 - self.height / 2,
            rect.width == self.width,
            rect.height == self.height,
    {
        let (x, y) = pos;
        let x = x - (self.width / 2) as i32;
        let y = y - (self.height / 2) as i32;
        Rect::new(x, y, self.width, self.height)
    }

    #[inline]
    pub fn resize(&mut self, width: u32, height: u32)
        ensures
            *final(self) == (Rect { width, height, ..*old(self) }),
    {
        self.width = width;
        self.height = height;
    }

    #[inline]
    pub fn resized(&self, width: u32, height: u32) -> (rect: Rect)
        ensures
            rect == (Rect { width, height, ..*self }),
    {
        Rect::new(self.x, self.y, width, height)
    }

    /// Whether the two rectangles have a pixel in common.
    #[inline]
    pub fn intersects(&self, other: Rect) -> (r: bool)
        ensures
            r == self.meets(other),
    {
        self.right_wide() > other.x as i64 && (self.x as i64) < other.right_wide() && (
        self.y as i64) < other.bottom_wide() && self.bottom_wide() > other.y as i64
    }

    /// The distance between two rectangles that do not intersect, in x and in
    /// y: in each direction from the far edge of the rectangle whose center
    /// comes first to the near edge of the other. Where the two overlap in one
    /// direction, the distance in it is negative and comes out as [`wrapped`].
    #[inline]
    pub fn distance_to_rect(&self, other: Rect) -> (r: Option<(u32, u32)>)
        ensures
            self.meets(other) ==> r is None,
            !self.meets(other) ==> (r matches Some(d) && d.0 == wrapped(self.x_gap(other)) && d.1
                == wrapped(self.y_gap(other))),
    {
        if self.intersects(other) {
            return None;
        }
        let x_dist = self.x_gap_wide(&other);
        let y_dist = self.y_gap_wide(&other);
        Some((wrap(x_dist), wrap(y_dist)))
    }

    /// How far `x` lies right or left of the rectangle; `None` where it lies
    /// strictly between the two edges.
    #[inline]
    pub fn distance_to_x(&self, x: i32) -> (r: Option<u32>)
        ensures
            x >= self.right_of() ==> (r matches Some(d) && d == x - self.right_of()),
            x < self.right_of() && x <= self.x ==> (r matches Some(d) && d == self.x - x),
            self.x < x < self.right_of() ==> r is None,
    {
        if x as i64 >= self.right_wide() {
            Some((x as i64 - self.right_wide()) as u32)
        } else if x <= self.x {
            Some((self.x as i64 - x as i64) as u32)
        } else {
            None
        }
    }

    /// How far `y` lies above or below the rectangle; `None` where it lies
    /// strictly between the two edges.
    #[inline]
    pub fn distance_to_y(&self, y: i32) -> (r: Option<u32>)
        ensures
            y <= self.y ==> (r matches Some(d) && d == self.y - y),
            y > self.y && y >= self.bottom_of() ==> (r matches Some(d) && d == y - self.bottom_of()),
            self.y < y < self.bottom_of() ==> r is None,
    {
        if y <= self.y {
            Some((self.y as i64 - y as i64) as u32)
        } else if y as i64 >= self.bottom_wide() {
            Some((y as i64 - self.bottom_wide()) as u32)
        } else {
            None
        }
    }

    /// How far two rectangles that intersect reach into each other, in x and
    /// in y: in each direction from the near edge of the rectangle whose
    /// center comes second to the far edge of the other.
    #[inline]
    pub fn overlap_with(&self, other: Rect) -> (r: Option<(u32, u32)>)
        ensures
            !self.meets(other) ==> r is None,
            self.meets(other) ==> (r matches Some(o) && o.0 == -self.x_gap(other) && o.1
                == -self.y_gap(other)),
    {
        if !self.intersects(other) {
            return None;
        }
        let x_overlap = (-self.x_gap_wide(&other)) as u32;
        let y_overlap = (-self.y_gap_wide(&other)) as u32;
        Some((x_overlap, y_overlap))
    }

    /// The x part of [`Rect::overlap_with`].
    #[inline]
    pub fn x_overlap_with(&self, other: Rect) -> (r: Option<u32>)
        ensures
            !self.meets(other) ==> r is None,
            self.meets(other) ==> (r matches Some(o) && o == -self.x_gap(other)),
    {
        if !self.intersects(other) {
            return None;
        }
        let x_overlap = (-self.x_gap_wide(&other)) as u32;
        Some(x_overlap)
    }

    /// The y part of [`Rect::overlap_with`].
    #[inline]
    pub fn y_overlap_with(&self, other: Rect) -> (r: Option<u32>)
        ensures
            !self.meets(other) ==> r is None,
            self.meets(other) ==> (r matches Some(o) && o == -self.y_gap(other)),
    {
        if !self.intersects(other) {
            return None;
        }
        let y_overlap = (-self.y_gap_wide(&other)) as u32;
        Some(y_overlap)
    }

    #[inline]
    pub fn size(&self) -> (r: (u32, u32))
        ensures
            r == (self.width, self.height),
    {
        (self.width, self.height)
    }

    #[inline]
    pub fn pos(&self) -> (r: (i32, i32))
        ensures
            r == (self.x, self.y),
    {
        (self.x, self.y)
    }

    #[inline]
    pub fn center(&self) -> (r: (i32, i32))
        requires
            self.center_x() <= i32::MAX,
            self.center_y() <= i32::MAX,
        ensures
            r.0 == self.center_x(),
            r.1 == self.center_y(),
    {
        (self.x + (self.width / 2) as i32, self.y + (self.height / 2) as i32)
    }

    #[inline]
    pub fn top(&self) -> (r: i32)
        ensures
            r == self.y,
    {
        self.y
    }

    #[inline]
    pub fn set_top(&mut self, y: i32)
        ensures
            *final(self) == (Rect { y, ..*old(self) }),
    {
        self.y = y;
    }

    #[inline]
    pub fn bottom(&self) -> (r: i32)
        requires
            self.bottom_of() <= i32::MAX,
        ensures
            r == self.bottom_of(),
    {
        self.bottom_wide() as i32
    }

    /// Moves the rectangle so that its bottom edge is `y`.
    #[inline]
    pub fn set_bottom(&mut self, y: i32)
        requires
            y - old(self).height >= i32::MIN,
        ensures
            final(self).y == y - old(self).height,
            final(self).x == old(self).x,
            final(self).width == old(self).width,
            final(self).height == old(self).height,
    {
        self.y = (y as i64 - self.height as i64) as i32;
    }

    #[inline]
    pub fn left(&self) -> (r: i32)
        ensures
            r == self.x,
    {
        self.x
    }

    #[inline]
    pub fn set_left(&mut self, x: i32)
        ensures
            *final(self) == (Rect { x, ..*old(self) }),
    {
        self.x = x;
    }

    #[inline]
    pub fn right(&self) -> (r: i32)
        requires
            self.right_of() <= i32::MAX,
        ensures
            r == self.right_of(),
    {
        self.right_wide() as i32
    }

    /// Moves the rectangle so that its right edge is `x`.
    #[inline]
    pub fn set_right(&mut self, x: i32)
        requires
            x - old(self).width >= i32::MIN,
        ensures
            final(self).x == x - old(self).width,
            final(self).y == old(self).y,
            final(self).width == old(self).width,
            final(self).height == old(self).height,
    {
        self.x = (x as i64 - self.width as i64) as i32;
    }

    #[inline]
    pub fn top_left(&self) -> (r: (i32, i32))
        ensures
            r == (self.x, self.y),
    {
        self.pos()
    }

    /// The left and the right edge.
    #[inline]
    pub fn bottom_left(&self) -> (r: (i32, i32))
        requires
            self.right_of() <= i32::MAX,
        ensures
            r.0 == self.x,
            r.1 == self.right_of(),
    {
        (self.left(), self.right())
    }

    #[inline]
    pub fn top_right(&self) -> (r: (i32, i32))
        requires
            self.right_of() <= i32::MAX,
        ensures
            r.0 == self.right_of(),
            r.1 == self.y,
    {
        (self.right(), self.top())
    }

    #[inline]
    pub fn bottom_right(&self) -> (r: (i32, i32))
        requires
            self.right_of() <= i32::MAX,
            self.bottom_of() <= i32::MAX,
        ensures
            r.0 == self.right_of(),
            r.1 == self.bottom_of(),
    {
        (self.right(), self.bottom())
    }
}

} // verus!
