//! The dithered sweep of a filled half-dial.

use vstd::prelude::*;

use crate::drivers::display::geometry::Point;

verus! {

/// A direction from the dial's center, y upward, in 16.16 fixed point.
#[derive(Debug, Clone, Copy, PartialEq, Eq, Structural)]
pub struct Needle {
    pub x: i64,
    pub y: i64,
}

impl Needle {
    /// Whether the components are those of a direction no longer than one.
    pub open spec fn in_range(self) -> bool {
        -65536 <= self.x <= 65536 && -65536 <= self.y <= 65536
    }
}

/// Whether the pixel at an offset from the center belongs to the sweep: on the
/// upper half disc but not its center, on the checkerboard, and not past the
/// needle (the cross product of needle and pixel, taken with y upward, is not
/// negative).
pub open spec fn in_sweep(dx: int, dy: int, radius: int, needle: Needle) -> bool {
    &&& -radius <= dx <= radius
    &&& -radius <= dy <= 0
    &&& 0 < dx * dx + dy * dy <= radius * radius
    &&& (dx + dy) % 2 == 0
    &&& needle.x * (-dy) - needle.y * dx >= 0
}

/// The pixels of the sweep in row `dy` left of column `end`.
pub open spec fn row_dots(center: Point, radius: int, needle: Needle, dy: int, end: int) -> Seq<
    Point,
>
    decreases end + radius,
{
    if end <= -radius {
        Seq::empty()
    } else {
        let before = row_dots(center, radius, needle, dy, end - 1);
        if in_sweep(end - 1, dy, radius, needle) {
            before.push(Point { x: (center.x + end - 1) as i32, y: (center.y + dy) as i32 })
        } else {
            before
        }
    }
}

/// The pixels of the sweep above row `end`, row by row from the top, each row
/// from the left.
pub open spec fn rows_dots(center: Point, radius: int, needle: Needle, end: int) -> Seq<Point>
    decreases end + radius,
{
    if end <= -radius {
        Seq::empty()
    } else {
        rows_dots(center, radius, needle, end - 1) + row_dots(
            center,
            radius,
            needle,
            end - 1,
            radius + 1,
        )
    }
}

/// The pixels of a sweep.
pub open spec fn sweep_dots(center: Point, radius: int, needle: Needle) -> Seq<Point> {
    rows_dots(center, radius, needle, 1)
}

/// Whether a disc of this radius around `center` has representable coordinates
/// and squares.
pub open spec fn disc_in_range(center: Point, radius: int) -> bool {
    &&& 0 <= radius <= 32767
    &&& center.x - radius >= i32::MIN
    &&& center.x + radius <= i32::MAX
    &&& center.y - radius >= i32::MIN
}

fn is_in_sweep(dx: i32, dy: i32, radius: i32, needle: Needle) -> (r: bool)
    requires
        0 <= radius <= 32767,
        -radius <= dx <= radius,
        -radius <= dy <= 0,
        needle.in_range(),
    ensures
        r == in_sweep(dx as int, dy as int, radius as int, needle),
{
    assert(0 <= dx * dx <= 32767 * 32767) by (nonlinear_arith)
        requires
            -32767 <= dx <= 32767,
    ;
    assert(0 <= dy * dy <= 32767 * 32767) by (nonlinear_arith)
        requires
            -32767 <= dy <= 32767,
    ;
    assert(0 <= radius * radius <= 32767 * 32767) by (nonlinear_arith)
        requires
            0 <= radius <= 32767,
    ;
    let dist_sq: i32 = dx * dx + dy * dy;
    if dist_sq == 0 || dist_sq > radius * radius {
        return false;
    }
    // Checkerboard: only every other pixel.
    let steps: i32 = dx + dy + 2 * radius;
    assert((dx + dy) % 2 == steps % 2);
    if steps as u32 % 2 != 0 {
        return false;
    }
    assert(-2_147_483_648 <= needle.x * (-dy) <= 2_147_483_648) by (nonlinear_arith)
        requires
            -65536 <= needle.x <= 65536,
            -32767 <= dy <= 0,
    ;
    assert(-2_147_483_648 <= needle.y * dx <= 2_147_483_648) by (nonlinear_arith)
        requires
            -65536 <= needle.y <= 65536,
            -32767 <= dx <= 32767,
    ;
    needle.x * (-dy) as i64 - needle.y * dx as i64 >= 0
}

/// The part of a half-dial that the needle has already swept from the left, as
/// a checkerboard.
pub fn dithered_sweep(center: Point, radius: i32, needle: Needle) -> (points: Vec<Point>)
    requires
        disc_in_range(center, radius as int),
        needle.in_range(),
    ensures
        points@ == sweep_dots(center, radius as int, needle),
{
    let mut points: Vec<Point> = Vec::new();
    let mut dy: i32 = -radius;
    while dy <= 0
        invariant
            disc_in_range(center, radius as int),
            needle.in_range(),
            -radius <= dy <= 1,
            points@ == rows_dots(center, radius as int, needle, dy as int),
        decreases 1 - dy,
    {
        let ghost above = points@;
        let mut dx: i32 = -radius;
        assert(above + Seq::<Point>::empty() =~= above);
        while dx <= radius
            invariant
                disc_in_range(center, radius as int),
                needle.in_range(),
                -radius <= dy <= 0,
                -radius <= dx <= radius + 1,
                points@ == above + row_dots(center, radius as int, needle, dy as int, dx as int),
            decreases radius + 1 - dx,
        {
            if is_in_sweep(dx, dy, radius, needle) {
                points.push(Point { x: center.x + dx, y: center.y + dy });
            }
            dx += 1;
            assert(points@ =~= above + row_dots(
                center,
                radius as int,
                needle,
                dy as int,
                dx as int,
            ));
        }
        dy += 1;
    }
    points
}

proof fn lemma_row(center: Point, radius: int, needle: Needle, dy: int, end: int)
    requires
        disc_in_range(center, radius),
        -radius <= dy <= 0,
        end <= radius + 1,
    ensures
        forall|i: int|
            0 <= i < row_dots(center, radius, needle, dy, end).len() ==> {
                let p = #[trigger] row_dots(center, radius, needle, dy, end)[i];
                p.y == center.y + dy && p.x - center.x < end && in_sweep(
                    p.x - center.x,
                    dy,
                    radius,
                    needle,
                )
            },
        forall|i: int, j: int|
            0 <= i < j < row_dots(center, radius, needle, dy, end).len() ==> row_dots(
                center,
                radius,
                needle,
                dy,
                end,
            )[i].x < row_dots(center, radius, needle, dy, end)[j].x,
        forall|dx: int|
            dx < end && #[trigger] in_sweep(dx, dy, radius, needle) ==> row_dots(
                center,
                radius,
                needle,
                dy,
                end,
            ).contains(Point { x: (center.x + dx) as i32, y: (center.y + dy) as i32 }),
    decreases end + radius,
{
    if end > -radius {
        lemma_row(center, radius, needle, dy, end - 1);
        let before = row_dots(center, radius, needle, dy, end - 1);
        let row = row_dots(center, radius, needle, dy, end);
        assert forall|dx: int|
            dx < end && #[trigger] in_sweep(dx, dy, radius, needle) implies row.contains(
            Point { x: (center.x + dx) as i32, y: (center.y + dy) as i32 },
        ) by {
            let p = Point { x: (center.x + dx) as i32, y: (center.y + dy) as i32 };
            if dx < end - 1 {
                assert(row[before.index_of(p)] == p);
            } else {
                assert(row[before.len() as int] == p);
            }
        }
    }
}

/// Whether `p` comes before `q` in reading order.
pub open spec fn reads_before(p: Point, q: Point) -> bool {
    p.y < q.y || (p.y == q.y && p.x < q.x)
}

proof fn lemma_rows(center: Point, radius: int, needle: Needle, end: int)
    requires
        disc_in_range(center, radius),
        end <= 1,
    ensures
        forall|i: int|
            0 <= i < rows_dots(center, radius, needle, end).len() ==> {
                let p = #[trigger] rows_dots(center, radius, needle, end)[i];
                p.y - center.y < end && in_sweep(
                    p.x - center.x,
                    p.y - center.y,
                    radius,
                    needle,
                )
            },
        forall|i: int, j: int|
            0 <= i < j < rows_dots(center, radius, needle, end).len() ==> reads_before(
                rows_dots(center, radius, needle, end)[i],
                rows_dots(center, radius, needle, end)[j],
            ),
        forall|dx: int, dy: int|
            dy < end && #[trigger] in_sweep(dx, dy, radius, needle) ==> rows_dots(
                center,
                radius,
                needle,
                end,
            ).contains(Point { x: (center.x + dx) as i32, y: (center.y + dy) as i32 }),
    decreases end + radius,
{
    if end > -radius {
        lemma_rows(center, radius, needle, end - 1);
        lemma_row(center, radius, needle, end - 1, radius + 1);
        let above = rows_dots(center, radius, needle, end - 1);
        let row = row_dots(center, radius, needle, end - 1, radius + 1);
        let rows = rows_dots(center, radius, needle, end);
        assert(rows == above + row);
        assert forall|dx: int, dy: int|
            dy < end && #[trigger] in_sweep(dx, dy, radius, needle) implies rows.contains(
            Point { x: (center.x + dx) as i32, y: (center.y + dy) as i32 },
        ) by {
            let p = Point { x: (center.x + dx) as i32, y: (center.y + dy) as i32 };
            if dy < end - 1 {
                assert(rows[above.index_of(p)] == p);
            } else {
                assert(rows[above.len() + row.index_of(p)] == p);
            }
        }
    }
}

/// A sweep draws exactly the pixels that belong to it, each once, in reading
/// order.
pub proof fn law_sweep_is_exact(center: Point, radius: int, needle: Needle)
    requires
        disc_in_range(center, radius),
    ensures
        forall|p: Point|
            #![trigger sweep_dots(center, radius, needle).contains(p)]
            sweep_dots(center, radius, needle).contains(p) <==> in_sweep(
                p.x - center.x,
                p.y - center.y,
                radius,
                needle,
            ),
        forall|i: int, j: int|
            0 <= i < j < sweep_dots(center, radius, needle).len() ==> reads_before(
                sweep_dots(center, radius, needle)[i],
                sweep_dots(center, radius, needle)[j],
            ),
{
    lemma_rows(center, radius, needle, 1);
    let dots = sweep_dots(center, radius, needle);
    assert forall|p: Point| #![trigger dots.contains(p)]
        in_sweep(p.x - center.x, p.y - center.y, radius, needle) implies dots.contains(p) by {
        let dx = p.x - center.x;
        let dy = p.y - center.y;
        assert(in_sweep(dx, dy, radius, needle));
        assert(p == Point { x: (center.x + dx) as i32, y: (center.y + dy) as i32 });
    }
}

} // verus!
