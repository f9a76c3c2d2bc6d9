use vstd::prelude::*;
use crate::text::{decimal, push_decimal};

verus! {

/// An integer pixel coordinate.
#[derive(PartialEq, Eq, Structural, Clone, Copy, Debug)]
pub struct Point {
    pub x: usize,
    pub y: usize,
}

/// A square crop region: its height is always its width.
#[derive(PartialEq, Eq, Structural, Clone, Copy, Debug)]
pub struct BoundingBox {
    pub top_left: Point,
    pub width: usize,
}

/// Smallest x over the points (`usize::MAX` for no points).
pub open spec fn lo_x(s: Seq<Point>) -> int
    decreases s.len(),
{
    if s.len() == 0 {
        usize::MAX as int
    } else {
        let m = lo_x(s.drop_last());
        if (s.last().x as int) < m { s.last().x as int } else { m }
    }
}

/// Largest x over the points (0 for no points).
pub open spec fn hi_x(s: Seq<Point>) -> int
    decreases s.len(),
{
    if s.len() == 0 {
        0
    } else {
        let m = hi_x(s.drop_last());
        if (s.last().x as int) > m { s.last().x as int } else { m }
    }
}

/// Smallest y over the points (`usize::MAX` for no points).
pub open spec fn lo_y(s: Seq<Point>) -> int
    decreases s.len(),
{
    if s.len() == 0 {
        usize::MAX as int
    } else {
        let m = lo_y(s.drop_last());
        if (s.last().y as int) < m { s.last().y as int } else { m }
    }
}

/// Largest y over the points (0 for no points).
pub open spec fn hi_y(s: Seq<Point>) -> int
    decreases s.len(),
{
    if s.len() == 0 {
        0
    } else {
        let m = hi_y(s.drop_last());
        if (s.last().y as int) > m { s.last().y as int } else { m }
    }
}

/// The margin added on each side of an extent: a tenth of it, rounded down.
pub open spec fn margin(lo: int, hi: int) -> int {
    (hi - lo) / 10
}

/// The lower bound moved out by the margin, held at 0.
pub open spec fn padded_lo(lo: int, hi: int) -> int {
    if lo > margin(lo, hi) { lo - margin(lo, hi) } else { 0 }
}

/// The upper bound moved out by the margin.
pub open spec fn padded_hi(lo: int, hi: int) -> int {
    hi + margin(lo, hi)
}

/// A coordinate moved towards the origin by `by`, held at 0.
pub open spec fn shifted(coord: int, by: int) -> int {
    if coord < by { 0 } else { coord - by }
}

/// The square that covers a `width` by `height` rectangle at `top_left`,
/// centred on its shorter side as far as the origin allows.
pub open spec fn square(top_left: Point, width: int, height: int) -> BoundingBox {
    if width > height {
        BoundingBox {
            top_left: Point { x: top_left.x, y: shifted(top_left.y as int, (width - height) / 2) as usize },
            width: width as usize,
        }
    } else {
        BoundingBox {
            top_left: Point { x: shifted(top_left.x as int, (height - width) / 2) as usize, y: top_left.y },
            width: height as usize,
        }
    }
}

/// Whether the padded upper bounds of the points fit in a `usize`.
pub open spec fn padding_fits(s: Seq<Point>) -> bool {
    &&& padded_hi(lo_x(s), hi_x(s)) <= usize::MAX
    &&& padded_hi(lo_y(s), hi_y(s)) <= usize::MAX
}

/// The padded rectangle around the points: left, top, width and height.
pub open spec fn padded_rect(s: Seq<Point>) -> (int, int, int, int) {
    let left = padded_lo(lo_x(s), hi_x(s));
    let top = padded_lo(lo_y(s), hi_y(s));
    (left, top, padded_hi(lo_x(s), hi_x(s)) - left, padded_hi(lo_y(s), hi_y(s)) - top)
}

/// The crop square of a set of landmark points.
pub open spec fn box_of(s: Seq<Point>) -> BoundingBox {
    let r = padded_rect(s);
    square(Point { x: r.0 as usize, y: r.1 as usize }, r.2, r.3)
}

/// The geometry descriptor `{width}x{width}+{x}+{y}` of a square.
pub open spec fn geometry_string(b: BoundingBox) -> Seq<char> {
    decimal(b.width as nat) + seq!['x'] + decimal(b.width as nat) + seq!['+']
        + decimal(b.top_left.x as nat) + seq!['+'] + decimal(b.top_left.y as nat)
}

proof fn lemma_extent_bounds(s: Seq<Point>)
    requires
        s.len() > 0,
    ensures
        0 <= lo_x(s) <= hi_x(s) <= usize::MAX,
        0 <= lo_y(s) <= hi_y(s) <= usize::MAX,
    decreases s.len(),
{
    if s.len() > 1 {
        lemma_extent_bounds(s.drop_last());
    } else {
        let e = s.drop_last();
        assert(lo_x(e) == usize::MAX && hi_x(e) == 0 && lo_y(e) == usize::MAX && hi_y(e) == 0);
    }
}

impl Point {
    pub fn new(x: usize, y: usize) -> (r: Point)
        ensures
            r == (Point { x, y }),
    {
        Point { x, y }
    }
}

impl BoundingBox {
    /// The square covering a `width` by `height` rectangle whose upper-left
    /// corner is `top_left`.
    pub fn new(top_left: Point, width: usize, height: usize) -> (r: BoundingBox)
        ensures
            r == square(top_left, width as int, height as int),
    {
        let mut top_left = top_left;
        if width > height {
            let to_move_up = (width - height) / 2;
            if top_left.y < to_move_up {
                top_left.y = 0;
            } else {
                top_left.y = top_left.y - to_move_up;
            }
            BoundingBox { top_left, width }
        } else {
            let to_move_left = (height - width) / 2;
            if top_left.x < to_move_left {
                top_left.x = 0;
            } else {
                top_left.x = top_left.x - to_move_left;
            }
            BoundingBox { top_left, width: height }
        }
    }

    /// The crop geometry `{width}x{width}+{x}+{y}` of this square.
    pub fn to_string(&self) -> (r: String)
        ensures
            r@ == geometry_string(*self),
    {
        let mut out = String::new();
        push_decimal(&mut out, self.width);
        out.append("x");
        push_decimal(&mut out, self.width);
        out.append("+");
        push_decimal(&mut out, self.top_left.x);
        out.append("+");
        push_decimal(&mut out, self.top_left.y);
        proof {
            reveal_strlit("x");
            reveal_strlit("+");
            assert(out@ =~= geometry_string(*self));
        }
        out
    }
}

/// The smallest and largest x and y over the points.
fn extent(points: &Vec<Point>) -> (r: (usize, usize, usize, usize))
    ensures
        r.0 == lo_x(points@),
        r.1 == hi_x(points@),
        r.2 == lo_y(points@),
        r.3 == hi_y(points@),
{
    let mut min_x: usize = usize::MAX;
    let mut max_x: usize = 0;
    let mut min_y: usize = usize::MAX;
    let mut max_y: usize = 0;
    let mut i: usize = 0;
    while i < points.len()
        invariant
            i <= points@.len(),
            min_x == lo_x(points@.take(i as int)),
            max_x == hi_x(points@.take(i as int)),
            min_y == lo_y(points@.take(i as int)),
            max_y == hi_y(points@.take(i as int)),
        decreases points@.len() - i,
    {
        assert(points@.take(i + 1).drop_last() == points@.take(i as int));
        let point = &points[i];
        if point.x < min_x {
            min_x = point.x;
        }
        if point.x > max_x {
            max_x = point.x;
        }
        if point.y < min_y {
            min_y = point.y;
        }
        if point.y > max_y {
            max_y = point.y;
        }
        i = i + 1;
    }
    assert(points@.take(points@.len() as int) == points@);
    (min_x, max_x, min_y, max_y)
}

/// Whether `bounding_box` can be computed for these points: there is at
/// least one, and the padded rectangle fits in a `usize`.
pub fn can_bound(points: &Vec<Point>) -> (r: bool)
    ensures
        r == (points@.len() > 0 && padding_fits(points@)),
{
    if points.len() == 0 {
        return false;
    }
    let (min_x, max_x, min_y, max_y) = extent(points);
    proof {
        lemma_extent_bounds(points@);
    }
    (max_x - min_x) / 10 <= usize::MAX - max_x && (max_y - min_y) / 10 <= usize::MAX - max_y
}

/// The padded square crop region of a non-empty set of landmark points.
pub fn bounding_box(points: Vec<Point>) -> (r: BoundingBox)
    requires
        points@.len() > 0,
        padding_fits(points@),
    ensures
        r == box_of(points@),
{
    let (mut min_x, mut max_x, mut min_y, mut max_y) = extent(&points);
    proof {
        lemma_extent_bounds(points@);
    }
    let width_padding = (max_x - min_x) / 10;
    let height_padding = (max_y - min_y) / 10;
    if min_x > width_padding {
        min_x = min_x - width_padding;
    } else {
        min_x = 0;
    }
    max_x = max_x + width_padding;
    if min_y > height_padding {
        min_y = min_y - height_padding;
    } else {
        min_y = 0;
    }
    max_y = max_y + height_padding;
    BoundingBox::new(Point::new(min_x, min_y), max_x - min_x, max_y - min_y)
}

/// A single point needs no padding: its square has width 0 and sits on the
/// point itself.
pub proof fn lemma_single_point(p: Point)
    ensures
        padding_fits(seq![p]),
        box_of(seq![p]) == (BoundingBox { top_left: p, width: 0 }),
{
    let s = seq![p];
    let e = s.drop_last();
    assert(e.len() == 0);
    assert(lo_x(e) == usize::MAX && hi_x(e) == 0 && lo_y(e) == usize::MAX && hi_y(e) == 0);
}

/// The side of the square is the larger of the padded width and height, so
/// the square, as tall as it is wide, covers both.
pub proof fn lemma_square_side(s: Seq<Point>)
    requires
        s.len() > 0,
        padding_fits(s),
    ensures
        box_of(s).width == (if padded_rect(s).2 > padded_rect(s).3 { padded_rect(s).2 } else { padded_rect(s).3 }),
        box_of(s).width >= padded_rect(s).2,
        box_of(s).width >= padded_rect(s).3,
{
    lemma_extent_bounds(s);
}

/// When the padded rectangle is already square, its corner is kept as it is.
pub proof fn lemma_square_unshifted(s: Seq<Point>)
    requires
        s.len() > 0,
        padding_fits(s),
        padded_rect(s).2 == padded_rect(s).3,
    ensures
        box_of(s).top_left.x == padded_rect(s).0,
        box_of(s).top_left.y == padded_rect(s).1,
{
    lemma_extent_bounds(s);
}

/// The corner of the square never passes the origin: each coordinate lies
/// between 0 and the padded rectangle's own, with no wrap-around.
pub proof fn lemma_corner_in_range(s: Seq<Point>)
    requires
        s.len() > 0,
        padding_fits(s),
    ensures
        0 <= box_of(s).top_left.x <= padded_rect(s).0,
        0 <= box_of(s).top_left.y <= padded_rect(s).1,
{
    lemma_extent_bounds(s);
}

/// The square depends on the points alone: the same points give the same
/// square every time.
pub proof fn lemma_same_points_same_box(a: Seq<Point>, b: Seq<Point>)
    requires
        a == b,
    ensures
        box_of(a) == box_of(b),
{
}

} // verus!
