//! What the ink meshes mean in exact arithmetic.

use crate::constants::{HALF, MILLIONTH};
use crate::exact::{
    cancel, choices_are_those_of_numbers, computes_closely, constants_are_numbers, distribute, dust,
    extent, extent_of_product, near, negation_is_that_of_numbers, number, parts,
    products_keep_parts, quotient_times_divisor, reorder, rounded, roundings, scale_bound,
    sums_stay_near, ulp,
};
use crate::ink::{across, is_ribbon, normal_at, widening, InkMesh};
use crate::number::{single, Single};
use crate::pen_laws::{grain, is_ordinary, lengths_are_close, unit_quotient};
use crate::physics::{length, StrokePoint};
use crate::rounding::finite;
use crate::unit::{FloatUnit, Op};
use vstd::prelude::*;

verus! {

/// The normal of a segment is perpendicular to it and stands to its left: its dot
/// product with the way along the segment is zero, and turning from the way to the normal
/// goes counterclockwise on both axes. This holds exactly, of the differences as the
/// arithmetic gives them.
pub proof fn a_normal_is_perpendicular_and_left<F: Fn(Op, u64, u64) -> u64>(
    unit: FloatUnit<F>,
    a: StrokePoint,
    b: StrokePoint,
)
    ensures
        ({
            let dx = unit.minus(b.pos_mm_x, a.pos_mm_x).value();
            let dy = unit.minus(b.pos_mm_y, a.pos_mm_y).value();
            let (nx, ny) = (across(unit, a, b)[0].value(), across(unit, a, b)[1].value());
            &&& dx * nx + dy * ny == 0
            &&& dx * ny - dy * nx == dx * dx + dy * dy
            &&& dx * ny >= 0
            &&& dy * nx <= 0
            &&& nx == 0 && ny == 0 <==> dx == 0 && dy == 0
        }),
{
    let dx = unit.minus(b.pos_mm_x, a.pos_mm_x).value();
    let dy = unit.minus(b.pos_mm_y, a.pos_mm_y).value();
    let (nx, ny) = (across(unit, a, b)[0].value(), across(unit, a, b)[1].value());
    assert(nx == -dy && ny == dx);
    assert(dx * nx + dy * ny == 0 && dx * ny - dy * nx == dx * dx + dy * dy && dx * ny >= 0 && dy
        * nx <= 0) by (nonlinear_arith)
        requires
            nx == -dy,
            ny == dx,
    ;
}

/// The place of a point on one of the axes.
pub open spec fn coordinate(point: StrokePoint, axis: int) -> Single {
    if axis == 0 {
        point.pos_mm_x
    } else {
        point.pos_mm_y
    }
}

/// The way on one axis from one point of a stroke to another.
pub open spec fn way(points: Seq<StrokePoint>, from: int, to: int, axis: int) -> real {
    number(coordinate(points[to], axis)) - number(coordinate(points[from], axis))
}

/// The point before one of a stroke; the first has none before it.
pub open spec fn before(points: Seq<StrokePoint>, i: int) -> int {
    if i == 0 {
        0
    } else {
        i - 1
    }
}

/// The point after one of a stroke; the last has none after it.
pub open spec fn after(points: Seq<StrokePoint>, i: int) -> int {
    if i == points.len() - 1 {
        i
    } else {
        i + 1
    }
}

/// The way from the point before to the point after, over the number of segments: at an
/// end the way along its one segment, in between the mean of the ways along two.
pub open spec fn chord(points: Seq<StrokePoint>, i: int, axis: int) -> real {
    let (lo, hi) = (before(points, i), after(points, i));
    way(points, lo, hi, axis) / ((hi - lo) as real)
}

/// How far the ribbon turns at a point: the ways to the point and from it on one axis,
/// without their signs.
pub open spec fn reach(points: Seq<StrokePoint>, i: int, axis: int) -> real {
    extent(way(points, before(points, i), i, axis)) + extent(
        way(points, i, after(points, i), axis),
    )
}

/// Whether all places of a stroke are finite and within 2^40 of the origin.
pub open spec fn is_on_sheet(points: Seq<StrokePoint>) -> bool {
    forall|k: int|
        0 <= k < points.len() ==> is_ordinary((#[trigger] points[k]).pos_mm_x) && is_ordinary(
            points[k].pos_mm_y,
        )
}

/// The mean of two rounded numbers.
proof fn means_are_close<F: Fn(Op, u64, u64) -> u64>(
    unit: FloatUnit<F>,
    a: Single,
    b: Single,
    x: real,
    y: real,
)
    requires
        computes_closely(unit),
        near(a, x, extent(x) * ulp() + dust()),
        near(b, y, extent(y) * ulp() + dust()),
        extent(x) <= 0x400_0000_0000 as real,
        extent(y) <= 0x400_0000_0000 as real,
    ensures
        near(
            unit.times(unit.plus(a, b), single(HALF)),
            (x + y) / (2 as real),
            roundings(4, extent(x) + extent(y)) + 8 as real * dust(),
        ),
{
    constants_are_numbers();
    sums_stay_near(unit, a, b, x, y, extent(x) * ulp() + dust(), extent(y) * ulp() + dust());
    let sum = unit.plus(a, b);
    let exact = number(sum) * number(single(HALF));
    assert(exact == number(sum) * ((1 as real) / (2 as real)));
    assert(rounded(unit.times(sum, single(HALF)), exact));
}

/// The ribbon widens across the way of the pen: the widening at a point is its chord
/// turned a quarter to the left, up to rounding.
pub proof fn a_ribbon_widens_across_its_way<F: Fn(Op, u64, u64) -> u64>(
    unit: FloatUnit<F>,
    points: Seq<StrokePoint>,
    i: int,
)
    requires
        computes_closely(unit),
        is_on_sheet(points),
        points.len() >= 2,
        0 <= i < points.len(),
    ensures
        near(
            widening(unit, points, i)[0],
            -chord(points, i, 1),
            roundings(4, reach(points, i, 1)) + 8 as real * dust(),
        ),
        near(
            widening(unit, points, i)[1],
            chord(points, i, 0),
            roundings(4, reach(points, i, 0)) + 8 as real * dust(),
        ),
{
    let (lo, hi) = (before(points, i), after(points, i));
    assert(is_ordinary(points[lo].pos_mm_x) && is_ordinary(points[lo].pos_mm_y));
    assert(is_ordinary(points[hi].pos_mm_x) && is_ordinary(points[hi].pos_mm_y));
    assert(is_ordinary(points[i].pos_mm_x) && is_ordinary(points[i].pos_mm_y));
    if lo == i || hi == i {
        segments_are_close(unit, points[lo], points[hi]);
        assert((hi - lo) as real == 1 as real);
    } else {
        segments_are_close(unit, points[lo], points[i]);
        segments_are_close(unit, points[i], points[hi]);
        let (u, v) = (across(unit, points[lo], points[i]), across(unit, points[i], points[hi]));
        means_are_close(unit, u[0], v[0], -way(points, lo, i, 1), -way(points, i, hi, 1));
        means_are_close(unit, u[1], v[1], way(points, lo, i, 0), way(points, i, hi, 0));
        assert((hi - lo) as real == 2 as real);
    }
}

/// The normal of a segment, up to rounding.
proof fn segments_are_close<F: Fn(Op, u64, u64) -> u64>(
    unit: FloatUnit<F>,
    a: StrokePoint,
    b: StrokePoint,
)
    requires
        computes_closely(unit),
        is_ordinary(a.pos_mm_x) && is_ordinary(a.pos_mm_y),
        is_ordinary(b.pos_mm_x) && is_ordinary(b.pos_mm_y),
    ensures
        ({
            let dx = number(b.pos_mm_x) - number(a.pos_mm_x);
            let dy = number(b.pos_mm_y) - number(a.pos_mm_y);
            &&& near(across(unit, a, b)[0], -dy, extent(dy) * ulp() + dust())
            &&& near(across(unit, a, b)[1], dx, extent(dx) * ulp() + dust())
        }),
{
    let up = unit.minus(b.pos_mm_y, a.pos_mm_y);
    assert(rounded(up, number(b.pos_mm_y) - number(a.pos_mm_y)));
    assert(rounded(
        unit.minus(b.pos_mm_x, a.pos_mm_x),
        number(b.pos_mm_x) - number(a.pos_mm_x),
    ));
    negation_is_that_of_numbers(up);
}

/// A normal is the widening brought to unit length: each component over the length,
/// where the widening is longer than a millionth, and straight up where it is shorter.
/// The length is the number whose square is the sum of the squares of the components.
pub proof fn normals_have_unit_length<F: Fn(Op, u64, u64) -> u64>(
    unit: FloatUnit<F>,
    points: Seq<StrokePoint>,
    i: int,
    exact: real,
)
    requires
        computes_closely(unit),
        is_ordinary(widening(unit, points, i)[0]),
        is_ordinary(widening(unit, points, i)[1]),
        exact >= 0 as real,
        ({
            let v = widening(unit, points, i);
            exact * exact == number(v[0]) * number(v[0]) + number(v[1]) * number(v[1])
        }),
    ensures
        ({
            let v = widening(unit, points, i);
            let n = normal_at(unit, points, i);
            &&& number(length(unit, v)) > number(single(MILLIONTH)) ==> {
                &&& near(n[0], number(v[0]) / exact, parts(32))
                &&& near(n[1], number(v[1]) / exact, parts(32))
            }
            &&& number(length(unit, v)) <= number(single(MILLIONTH)) ==> {
                number(n[0]) == 0 as real && number(n[1]) == 1 as real
            }
        }),
{
    constants_are_numbers();
    let v = widening(unit, points, i);
    let size = length(unit, v);
    lengths_are_close(unit, v, exact);
    choices_are_those_of_numbers(single(MILLIONTH), size);
    if number(size) > number(single(MILLIONTH)) {
        assert(exact * parts(9) >= roundings(8, exact) + grain());
        unit_quotient(unit, v[0], size, exact);
        unit_quotient(unit, v[1], size, exact);
    }
}

/// The vertices of a ribbon: four for each segment, two at its start and two at its end,
/// of which the first stands on one side of the point and the second as far on the other.
/// They are half the ink width away along the normal, whose sideways component the aspect
/// ratio stretches, and carry the pressure and the time of the point.
pub proof fn edges_are_half_a_width_away<F: Fn(Op, u64, u64) -> u64>(
    unit: FloatUnit<F>,
    points: Seq<StrokePoint>,
    mesh: InkMesh,
    segment: int,
    end: int,
    right: int,
)
    requires
        computes_closely(unit),
        is_ribbon(unit, points, mesh),
        0 <= segment < points.len() - 1,
        0 <= end < 2,
        0 <= right < 2,
        is_ordinary(points[segment + end].pos_mm_x),
        is_ordinary(points[segment + end].pos_mm_y),
        is_ordinary(points[segment + end].width_mm),
        is_ordinary(points[segment + end].aspect_ratio),
        near(normal_at(unit, points, segment + end)[0], 0 as real, 2 as real),
        near(normal_at(unit, points, segment + end)[1], 0 as real, 2 as real),
    ensures
        ({
            let at = 4 * segment + 2 * end + right;
            let vertex = mesh.vertices@[at];
            let point = points[segment + end];
            let normal = normal_at(unit, points, segment + end);
            let side = if right == 0 {
                1 as real
            } else {
                -(1 as real)
            };
            let across_x = number(normal[0]) * number(point.aspect_ratio) * (number(
                point.width_mm,
            ) / (2 as real));
            let across_y = number(normal[1]) * (number(point.width_mm) / (2 as real));
            &&& 0 <= at < mesh.vertices@.len()
            &&& near(
                vertex.pos_mm[0],
                number(point.pos_mm_x) + side * across_x,
                roundings(16, extent(number(point.pos_mm_x)) + extent(across_x)) + grain(),
            )
            &&& near(
                vertex.pos_mm[1],
                number(point.pos_mm_y) + side * across_y,
                roundings(16, extent(number(point.pos_mm_y)) + extent(across_y)) + grain(),
            )
            &&& vertex.pressure == point.pressure
            &&& vertex.timestamp_secs == point.timestamp_secs
        }),
{
    constants_are_numbers();
    let i = segment + end;
    let at = 4 * segment + 2 * end + right;
    let point = points[i];
    let normal = normal_at(unit, points, i);
    let zero = 0 as real;
    assert(at / 4 + (at % 4) / 2 == i && (at % 2 == 1) == (right == 1));
    let (x, y) = (number(normal[0]), number(normal[1]));
    let (a, w) = (number(point.aspect_ratio), number(point.width_mm));
    let h = w / (2 as real);
    let half = unit.times(point.width_mm, single(HALF));
    assert(number(point.width_mm) * number(single(HALF)) == w * ((1 as real) / (2 as real)));
    assert(rounded(half, h));
    assert(near(half, h, extent(h) * ulp() + dust()));
    let big = 0x100_0000_0000 as real;
    extent_of_product(x, a);
    scale_bound(extent(x), 2 as real, extent(a));
    reorder(extent(x), extent(a), zero);
    reorder(2 as real, extent(a), zero);
    let wide = unit.times(normal[0], point.aspect_ratio);
    assert(rounded(wide, x * a));
    assert(near(wide, x * a, extent(x * a) * ulp() + dust()));
    offsets_are_close(unit, wide, half, x * a, h);
    extent_of_product(y, h);
    assert(extent(y) * ulp() + dust() >= zero);
    offsets_are_close(unit, normal[1], half, y, h);
    let (dx, dy) = (unit.times(wide, half), unit.times(normal[1], half));
    shifts_are_close(unit, point.pos_mm_x, dx, x * a * h);
    shifts_are_close(unit, point.pos_mm_y, dy, y * h);
    assert(1 as real * (x * a * h) == x * a * h);
    assert(-(1 as real) * (x * a * h) == -(x * a * h));
    assert(1 as real * (y * h) == y * h);
    assert(-(1 as real) * (y * h) == -(y * h));
}

/// Half the ink width along a component of the normal.
proof fn offsets_are_close<F: Fn(Op, u64, u64) -> u64>(
    unit: FloatUnit<F>,
    a: Single,
    half: Single,
    x: real,
    h: real,
)
    requires
        computes_closely(unit),
        near(a, x, extent(x) * ulp() + dust()),
        near(half, h, extent(h) * ulp() + dust()),
        extent(x) <= 0x200_0000_0000 as real,
        extent(h) <= 0x100_0000_0000 as real,
    ensures
        near(
            unit.times(a, half),
            x * h,
            roundings(5, extent(x * h)) + grain() / (4 as real),
        ),
        extent(x * h) <= 0x2_0000_0000_0000_0000_0000 as real,
{
    extent_of_product(x, h);
    scale_bound(extent(x), 0x200_0000_0000 as real, extent(h));
    reorder(0x200_0000_0000 as real, extent(h), extent(h));
    let k = grain() / (4 as real);
    assert(2 as real * (extent(x) * dust()) + 2 as real * (extent(h) * dust()) + 2 as real * (dust()
        * dust()) + dust() <= k);
    products_keep_parts(unit, a, half, x, h, ulp(), dust(), ulp(), dust(), parts(5), k);
}

/// A place moved one way and the other.
proof fn shifts_are_close<F: Fn(Op, u64, u64) -> u64>(
    unit: FloatUnit<F>,
    a: Single,
    by: Single,
    x: real,
)
    requires
        computes_closely(unit),
        is_ordinary(a),
        extent(x) <= 0x2_0000_0000_0000_0000_0000 as real,
        near(by, x, roundings(5, extent(x)) + grain() / (4 as real)),
    ensures
        near(
            unit.plus(a, by),
            number(a) + x,
            roundings(16, extent(number(a)) + extent(x)) + grain(),
        ),
        near(
            unit.minus(a, by),
            number(a) - x,
            roundings(16, extent(number(a)) + extent(x)) + grain(),
        ),
{
    assert(rounded(unit.plus(a, by), number(a) + number(by)));
    assert(rounded(unit.minus(a, by), number(a) - number(by)));
}

/// The two triangles of a segment use all four of its vertices and turn the same way: the
/// first goes from the start on the first side over the start on the second to the end on
/// the first, the other from the start on the second side over the end on the second to
/// the end on the first. Both share the way between the second and the last of these.
pub proof fn two_triangles_make_a_segment<F: Fn(Op, u64, u64) -> u64>(
    unit: FloatUnit<F>,
    points: Seq<StrokePoint>,
    mesh: InkMesh,
    segment: int,
)
    requires
        is_ribbon(unit, points, mesh),
        0 <= segment < points.len() - 1,
        mesh.vertices@.len() <= 0x1_0000_0000,
    ensures
        mesh.indices@.len() == 6 * (points.len() - 1),
        mesh.indices@.subrange(6 * segment, 6 * segment + 6) == seq![
            (4 * segment) as u32,
            (4 * segment + 1) as u32,
            (4 * segment + 2) as u32,
            (4 * segment + 1) as u32,
            (4 * segment + 3) as u32,
            (4 * segment + 2) as u32,
        ],
{
}

/// At an end of a stroke the normal stands to the left of the way of the pen: sideways
/// against the way up, and up along the way sideways.
pub proof fn end_normals_point_left<F: Fn(Op, u64, u64) -> u64>(
    unit: FloatUnit<F>,
    points: Seq<StrokePoint>,
    last: bool,
)
    requires
        computes_closely(unit),
        is_on_sheet(points),
        points.len() >= 2,
        number(
            length(
                unit,
                widening(unit, points, if last { points.len() - 1 } else { 0 }),
            ),
        ) > number(single(MILLIONTH)),
        finite(
            length(
                unit,
                widening(unit, points, if last { points.len() - 1 } else { 0 }),
            ),
        ),
    ensures
        ({
            let i = if last {
                points.len() - 1
            } else {
                0
            };
            let normal = normal_at(unit, points, i);
            let (dx, dy) = (chord(points, i, 0), chord(points, i, 1));
            &&& dy >= 0 as real ==> number(normal[0]) <= 0 as real
            &&& dy <= 0 as real ==> number(normal[0]) >= 0 as real
            &&& dx >= 0 as real ==> number(normal[1]) >= 0 as real
            &&& dx <= 0 as real ==> number(normal[1]) <= 0 as real
        }),
{
    constants_are_numbers();
    let i = if last {
        points.len() - 1
    } else {
        0
    };
    let (lo, hi) = (before(points, i), after(points, i));
    let (a, b) = (points[lo], points[hi]);
    assert(is_ordinary(points[lo].pos_mm_x) && is_ordinary(points[hi].pos_mm_x));
    assert((hi - lo) as real == 1 as real);
    let v = widening(unit, points, i);
    assert(v == across(unit, a, b));
    segments_are_close(unit, a, b);
    let up = unit.minus(b.pos_mm_y, a.pos_mm_y);
    let over = unit.minus(b.pos_mm_x, a.pos_mm_x);
    assert(rounded(up, number(b.pos_mm_y) - number(a.pos_mm_y)));
    assert(rounded(over, number(b.pos_mm_x) - number(a.pos_mm_x)));
    negation_is_that_of_numbers(up);
    let size = length(unit, v);
    choices_are_those_of_numbers(single(MILLIONTH), size);
    signs_are_kept(unit, v[0], size);
    signs_are_kept(unit, v[1], size);
}

/// A quotient by something longer than a millionth keeps the sign of the dividend.
proof fn signs_are_kept<F: Fn(Op, u64, u64) -> u64>(unit: FloatUnit<F>, a: Single, size: Single)
    requires
        computes_closely(unit),
        finite(a),
        extent(number(a)) <= 0x400_0000_0000 as real,
        finite(size),
        number(size) > number(single(MILLIONTH)),
    ensures
        number(a) >= 0 as real ==> number(unit.over(a, size)) >= 0 as real,
        number(a) <= 0 as real ==> number(unit.over(a, size)) <= 0 as real,
{
    constants_are_numbers();
    let (x, y) = (number(a), number(size));
    let q = x / y;
    quotient_times_divisor(x, y);
    extent_of_product(q, y);
    let w = extent(q);
    scale_bound(1 as real, y * (2_000_000 as real), w);
    reorder(w, y, 2_000_000 as real);
    reorder(w, y * (2_000_000 as real), y);
    assert(w <= extent(x) * (2_000_000 as real));
    assert(rounded(unit.over(a, size), q));
    assert(x >= 0 as real ==> q >= 0 as real) by {
        if q < 0 as real {
            assert(q * y < 0 as real) by (nonlinear_arith)
                requires
                    q < 0 as real,
                    y > 0 as real,
            ;
        }
    }
    assert(x <= 0 as real ==> q <= 0 as real) by {
        if q > 0 as real {
            assert(q * y > 0 as real) by (nonlinear_arith)
                requires
                    q > 0 as real,
                    y > 0 as real,
            ;
        }
    }
}

/// At an end of a stroke the normal is perpendicular to the way of the pen: their dot
/// product is zero, up to rounding. The length is that of the widening.
pub proof fn end_normals_are_perpendicular<F: Fn(Op, u64, u64) -> u64>(
    unit: FloatUnit<F>,
    points: Seq<StrokePoint>,
    last: bool,
    exact: real,
)
    requires
        computes_closely(unit),
        is_on_sheet(points),
        points.len() >= 2,
        ({
            let v = widening(unit, points, if last { points.len() - 1 } else { 0 });
            &&& is_ordinary(v[0])
            &&& is_ordinary(v[1])
            &&& exact * exact == number(v[0]) * number(v[0]) + number(v[1]) * number(v[1])
            &&& exact * (999_000 as real) >= 1 as real
        }),
    ensures
        ({
            let i = if last {
                points.len() - 1
            } else {
                0
            };
            let normal = normal_at(unit, points, i);
            let (dx, dy) = (chord(points, i, 0), chord(points, i, 1));
            extent(number(normal[0]) * dx + number(normal[1]) * dy) <= roundings(
                64,
                extent(dx) + extent(dy),
            )
        }),
{
    constants_are_numbers();
    let i = if last {
        points.len() - 1
    } else {
        0
    };
    let (lo, hi) = (before(points, i), after(points, i));
    let (a, b) = (points[lo], points[hi]);
    assert(is_ordinary(points[lo].pos_mm_x) && is_ordinary(points[hi].pos_mm_x));
    assert((hi - lo) as real == 1 as real);
    let v = widening(unit, points, i);
    assert(v == across(unit, a, b));
    segments_are_close(unit, a, b);
    let size = length(unit, v);
    lengths_are_close(unit, v, exact);
    choices_are_those_of_numbers(single(MILLIONTH), size);
    normals_have_unit_length(unit, points, i, exact);
    let n = normal_at(unit, points, i);
    let (dx, dy) = (chord(points, i, 0), chord(points, i, 1));
    let (p, q) = (number(v[0]), number(v[1]));
    let (r, s) = (p / exact, q / exact);
    assert(near(n[0], r, parts(32)) && near(n[1], s, parts(32)));
    quotient_times_divisor(p, exact);
    quotient_times_divisor(q, exact);
    // The exact quotients are perpendicular up to one rounding of each difference.
    let t = r * dx + s * dy;
    let whole = p * dx + q * dy;
    reorder(exact, r, dx);
    reorder(exact, s, dy);
    reorder(r, exact, dx);
    reorder(s, exact, dy);
    distribute(exact, r * dx, s * dy);
    assert(exact * t == whole);
    let (e, f) = (p + dy, q - dx);
    distribute(dx, p + dy, -dy);
    distribute(dy, q - dx, dx);
    reorder(dx, p, dy);
    reorder(dy, q, dx);
    reorder(dx, dy, dx);
    reorder(dx, -dy, dx);
    assert(dx * (-dy) == -(dx * dy)) by (nonlinear_arith);
    assert(whole == dx * e + dy * f);
    extent_of_product(dx, e);
    extent_of_product(dy, f);
    let d = extent(dx) + extent(dy);
    // Each difference is at most the length, a little more.
    let slack = exact * parts(3);
    assert(extent(e) <= slack && extent(f) <= slack);
    scale_bound(extent(e), slack, extent(dx));
    scale_bound(extent(f), slack, extent(dy));
    reorder(extent(e), extent(dx), d);
    reorder(extent(f), extent(dy), d);
    distribute(slack, extent(dx), extent(dy));
    assert(extent(whole) <= slack * d);
    extent_of_product(exact, t);
    reorder(exact, parts(3), d);
    reorder(extent(t), exact, d);
    reorder(parts(3) * d, exact, d);
    reorder(parts(3), d, d);
    assert(extent(t) * exact <= (d * parts(3)) * exact);
    cancel(extent(t), d * parts(3), exact);
    // And the normal is close to them.
    let (g, h) = (number(n[0]) - r, number(n[1]) - s);
    distribute(dx, g, r);
    distribute(dy, h, s);
    reorder(dx, number(n[0]), d);
    reorder(dy, number(n[1]), d);
    reorder(dx, r, d);
    reorder(dy, s, d);
    extent_of_product(dx, g);
    extent_of_product(dy, h);
    scale_bound(extent(g), parts(32), extent(dx));
    scale_bound(extent(h), parts(32), extent(dy));
    reorder(extent(g), extent(dx), d);
    reorder(extent(h), extent(dy), d);
}

} // verus!
