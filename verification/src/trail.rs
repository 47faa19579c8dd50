//! The way of the pen along the outlines of shaped glyphs, in pixels.

use crate::constants::{WIDE_TENTH, WIDE_ZERO};
use crate::exact::{
    computes_closely_wide, dust, extent, near_wide, number, number_wide, spread, ulp_wide,
    wide_constants_are_numbers, wide_products_stay_near, wide_roundings, wide_sums_stay_near,
};
use crate::number::{double, Double, Single};
use crate::outline::{Outline, PathEl, Point};
use crate::rounding::{finite, finite_wide};
use crate::shape::{glyph_views, GlyphView, ShapedGlyph};
use crate::unit::{FloatUnit, Op};
use vstd::prelude::*;

verus! {

/// Where the steps of an outline end, in order.
pub open spec fn stops(steps: Seq<PathEl>) -> Seq<Point>
    decreases steps.len(),
{
    if steps.len() == 0 {
        Seq::empty()
    } else {
        match steps.last().end() {
            Some(p) => stops(steps.drop_last()).push(p),
            None => stops(steps.drop_last()),
        }
    }
}

/// A point of an outline on the page: a tenth of a pixel to the font unit, moved
/// right to where the glyph starts.
pub open spec fn on_page<F: Fn(Op, u64, u64) -> u64>(
    unit: FloatUnit<F>,
    p: Point,
    x: Double,
) -> Point {
    Point {
        x: unit.plus_wide(unit.times_wide(p.x, double(WIDE_TENTH)), x),
        y: unit.plus_wide(unit.times_wide(p.y, double(WIDE_TENTH)), double(WIDE_ZERO)),
    }
}

/// The points of an outline on the page.
pub open spec fn outline_on_page<F: Fn(Op, u64, u64) -> u64>(
    unit: FloatUnit<F>,
    steps: Seq<PathEl>,
    x: Double,
) -> Seq<Point> {
    stops(steps).map_values(|p: Point| on_page(unit, p, x))
}

/// The points that are written so far, and where the next glyph starts.
#[verifier::ext_equal]
pub struct Trail {
    pub points: Seq<Point>,
    pub x: Double,
}

/// A trail that nothing is written on.
pub open spec fn blank() -> Trail {
    Trail { points: Seq::empty(), x: double(WIDE_ZERO) }
}

/// The trail after one more glyph. The pen moves by the advance of the glyph; where
/// it follows the outline it writes its points first and moves by the spacing bias
/// too.
pub open spec fn followed<F: Fn(Op, u64, u64) -> u64>(
    unit: FloatUnit<F>,
    trail: Trail,
    glyph: GlyphView,
    skipped: bool,
    bias_per_char: Single,
) -> Trail {
    let moved = unit.plus_wide(
        trail.x,
        unit.times_wide(glyph.x_advance, double(WIDE_TENTH)),
    );
    match glyph.outline {
        Some(steps) if !skipped => Trail {
            points: trail.points + outline_on_page(unit, steps, trail.x),
            x: unit.plus_wide(
                moved,
                unit.times_wide(unit.widened(bias_per_char), double(WIDE_TENTH)),
            ),
        },
        _ => Trail { points: trail.points, x: moved },
    }
}

/// The trail along glyphs, of which those whose outline `skips` holds of are passed
/// over.
pub open spec fn trail_along<F: Fn(Op, u64, u64) -> u64>(
    unit: FloatUnit<F>,
    glyphs: Seq<GlyphView>,
    skips: spec_fn(Option<Seq<PathEl>>) -> bool,
    bias_per_char: Single,
) -> Trail
    decreases glyphs.len(),
{
    if glyphs.len() == 0 {
        blank()
    } else {
        followed(
            unit,
            trail_along(unit, glyphs.drop_last(), skips, bias_per_char),
            glyphs.last(),
            skips(glyphs.last().outline),
            bias_per_char,
        )
    }
}

/// Writes the points of an outline that starts at `x`.
fn write_outline<F: Fn(Op, u64, u64) -> u64>(
    unit: &FloatUnit<F>,
    outline: &Outline,
    x: Double,
    points: &mut Vec<Point>,
)
    ensures
        final(points)@ == old(points)@ + outline_on_page(*unit, outline@, x),
{
    let ghost before = points@;
    let mut i: usize = 0;
    assert(outline_on_page(*unit, outline@.take(0), x) == Seq::<Point>::empty());
    while i < outline.elements.len()
        invariant
            i <= outline@.len(),
            points@ == before + outline_on_page(*unit, outline@.take(i as int), x),
        decreases outline@.len() - i,
    {
        let ghost steps = outline@.take(i as int);
        assert(outline@.take(i + 1).drop_last() == steps);
        let end = outline.elements[i].end_point();
        if let Some(p) = end {
            let at = Point {
                x: unit.add_wide(unit.mul_wide(p.x, double(WIDE_TENTH)), x),
                y: unit.add_wide(unit.mul_wide(p.y, double(WIDE_TENTH)), double(WIDE_ZERO)),
            };
            points.push(at);
            assert(outline_on_page(*unit, outline@.take(i + 1), x) == outline_on_page(
                *unit,
                steps,
                x,
            ).push(at));
        }
        i += 1;
    }
    assert(outline@.take(i as int) == outline@);
}

/// Follows one more glyph: writes its points and gives where the next one starts.
pub fn follow<F: Fn(Op, u64, u64) -> u64>(
    unit: &FloatUnit<F>,
    glyph: &ShapedGlyph,
    skipped: bool,
    bias_per_char: Single,
    x: Double,
    points: &mut Vec<Point>,
) -> (r: Double)
    ensures
        (Trail { points: final(points)@, x: r }) == followed(
            *unit,
            Trail { points: old(points)@, x },
            glyph@,
            skipped,
            bias_per_char,
        ),
{
    let moved = unit.add_wide(x, unit.mul_wide(glyph.x_advance, double(WIDE_TENTH)));
    if skipped {
        return moved;
    }
    match &glyph.outline {
        Some(outline) => {
            write_outline(unit, outline, x, points);
            unit.add_wide(moved, unit.mul_wide(unit.widen(bias_per_char), double(WIDE_TENTH)))
        },
        None => moved,
    }
}

/// The points along glyphs, without those that are passed over.
pub(crate) fn points_along<F: Fn(Op, u64, u64) -> u64, S: Fn(&ShapedGlyph) -> bool>(
    unit: &FloatUnit<F>,
    glyphs: &Vec<ShapedGlyph>,
    passes: S,
    bias_per_char: Single,
    Ghost(skips): Ghost<spec_fn(Option<Seq<PathEl>>) -> bool>,
) -> (r: Vec<Point>)
    requires
        forall|glyph: &ShapedGlyph| call_requires(passes, (glyph,)),
        forall|glyph: &ShapedGlyph, skipped: bool|
            call_ensures(passes, (glyph,), skipped) ==> skipped == skips(glyph@.outline),
    ensures
        r@ == trail_along(*unit, glyph_views(glyphs@), skips, bias_per_char).points,
{
    let ghost views = glyph_views(glyphs@);
    let mut points: Vec<Point> = Vec::new();
    let mut x = double(WIDE_ZERO);
    let mut i: usize = 0;
    assert((Trail { points: points@, x }) == blank());
    assert(views.take(0).len() == 0);
    while i < glyphs.len()
        invariant
            i <= glyphs@.len(),
            views == glyph_views(glyphs@),
            forall|glyph: &ShapedGlyph| call_requires(passes, (glyph,)),
            forall|glyph: &ShapedGlyph, skipped: bool|
                call_ensures(passes, (glyph,), skipped) ==> skipped == skips(glyph@.outline),
            (Trail { points: points@, x }) == trail_along(
                *unit,
                views.take(i as int),
                skips,
                bias_per_char,
            ),
        decreases glyphs@.len() - i,
    {
        assert(views.take(i + 1).drop_last() == views.take(i as int));
        assert(views.take(i + 1).last() == glyphs@[i as int]@);
        let skipped = passes(&glyphs[i]);
        x = follow(unit, &glyphs[i], skipped, bias_per_char, x, &mut points);
        i += 1;
    }
    assert(views.take(i as int) == views);
    points
}

/// Glyphs without outlines, and glyphs that are passed over, leave no points.
pub proof fn no_outline_no_points<F: Fn(Op, u64, u64) -> u64>(
    unit: FloatUnit<F>,
    glyphs: Seq<GlyphView>,
    skips: spec_fn(Option<Seq<PathEl>>) -> bool,
    bias_per_char: Single,
)
    requires
        forall|i: int|
            0 <= i < glyphs.len() ==> (#[trigger] glyphs[i]).outline is None || skips(
                glyphs[i].outline,
            ),
    ensures
        trail_along(unit, glyphs, skips, bias_per_char).points == Seq::<Point>::empty(),
    decreases glyphs.len(),
{
    if glyphs.len() > 0 {
        let rest = glyphs.drop_last();
        assert(forall|i: int| 0 <= i < rest.len() ==> rest[i] == glyphs[i]);
        no_outline_no_points(unit, rest, skips, bias_per_char);
        assert(glyphs[glyphs.len() - 1] == glyphs.last());
    }
}

/// Nothing that is written is moved again: the trail along the first glyphs starts
/// the trail along all of them.
pub proof fn the_trail_only_grows<F: Fn(Op, u64, u64) -> u64>(
    unit: FloatUnit<F>,
    glyphs: Seq<GlyphView>,
    count: int,
    skips: spec_fn(Option<Seq<PathEl>>) -> bool,
    bias_per_char: Single,
)
    requires
        0 <= count <= glyphs.len(),
    ensures
        trail_along(unit, glyphs.take(count), skips, bias_per_char).points.is_prefix_of(
            trail_along(unit, glyphs, skips, bias_per_char).points,
        ),
    decreases glyphs.len(),
{
    let all = trail_along(unit, glyphs, skips, bias_per_char).points;
    if count == glyphs.len() {
        assert(glyphs.take(count) == glyphs);
    } else {
        let rest = glyphs.drop_last();
        the_trail_only_grows(unit, rest, count, skips, bias_per_char);
        assert(rest.take(count) == glyphs.take(count));
        let head = trail_along(unit, glyphs.take(count), skips, bias_per_char).points;
        let before = trail_along(unit, rest, skips, bias_per_char).points;
        assert(head == before.take(head.len() as int));
        assert(all.take(before.len() as int) == before);
        assert(head == all.take(head.len() as int));
    }
}

/// The points of two outlines put together are those of the first, then those of the
/// second.
pub proof fn outlines_put_together<F: Fn(Op, u64, u64) -> u64>(
    unit: FloatUnit<F>,
    first: Seq<PathEl>,
    second: Seq<PathEl>,
    x: Double,
)
    ensures
        outline_on_page(unit, first + second, x) == outline_on_page(unit, first, x)
            + outline_on_page(unit, second, x),
    decreases second.len(),
{
    if second.len() == 0 {
        assert(first + second == first);
    } else {
        outlines_put_together(unit, first, second.drop_last(), x);
        assert((first + second).drop_last() == first + second.drop_last());
        assert((first + second).last() == second.last());
        let head = outline_on_page(unit, first, x);
        let tail = outline_on_page(unit, second.drop_last(), x);
        if let Some(p) = second.last().end() {
            let at = on_page(unit, p, x);
            assert(outline_on_page(unit, second, x) == tail.push(at));
            assert(outline_on_page(unit, first + second, x) == (head + tail).push(at));
            assert((head + tail).push(at) == head + tail.push(at));
        }
    }
}

/// Whether a point of the page is a point of an outline, in tenths of its unit and moved
/// right by `x`, up to rounding.
pub open spec fn is_placed(at: Point, p: Point, x: Double) -> bool {
    &&& near_wide(
        at.x,
        number_wide(p.x) / (10 as real) + number_wide(x),
        wide_roundings(8, extent(number_wide(p.x)) + extent(number_wide(x))) + 8 as real * dust(),
    )
    &&& near_wide(
        at.y,
        number_wide(p.y) / (10 as real),
        wide_roundings(8, extent(number_wide(p.y))) + 8 as real * dust(),
    )
}

/// Whether a double is finite and within 2^64 of zero.
pub open spec fn is_moderate(a: Double) -> bool {
    finite_wide(a) && extent(number_wide(a)) <= 0x1_0000_0000_0000_0000 as real
}

/// A coordinate in tenths, moved by `x`.
proof fn tenths_are_placed<F: Fn(Op, u64, u64) -> u64>(unit: FloatUnit<F>, a: Double, x: Double)
    requires
        computes_closely_wide(unit),
        is_moderate(a),
        is_moderate(x),
    ensures
        near_wide(
            unit.plus_wide(unit.times_wide(a, double(WIDE_TENTH)), x),
            number_wide(a) / (10 as real) + number_wide(x),
            wide_roundings(8, extent(number_wide(a)) + extent(number_wide(x))) + 8 as real * dust(),
        ),
{
    wide_constants_are_numbers();
    let (n, m) = (number_wide(a), number_wide(x));
    let tenth = (1 as real) / (10 as real);
    let zero = 0 as real;
    assert(spread(n, tenth, zero, ulp_wide()) == extent(n) * ulp_wide()) by {
        assert(extent(tenth) * zero == zero);
        assert(zero * ulp_wide() == zero);
    }
    assert(n * tenth == n / (10 as real));
    wide_products_stay_near(unit, a, double(WIDE_TENTH), n, tenth, zero, ulp_wide());
    let e = extent(n) * ulp_wide() + (extent(n * tenth) + extent(n) * ulp_wide()) * ulp_wide()
        + dust();
    wide_sums_stay_near(
        unit,
        unit.times_wide(a, double(WIDE_TENTH)),
        x,
        n * tenth,
        m,
        e,
        zero,
    );
}

/// A step of an outline that ends somewhere gives one point: where it ends, in tenths of
/// the unit of the outline and moved right by `x`. Closing a contour gives none.
pub proof fn a_step_gives_the_point_where_it_ends<F: Fn(Op, u64, u64) -> u64>(
    unit: FloatUnit<F>,
    step: PathEl,
    x: Double,
)
    requires
        computes_closely_wide(unit),
        is_moderate(x),
    ensures
        ({
            let points = outline_on_page(unit, seq![step], x);
            match step {
                PathEl::MoveTo(p) => points.len() == 1 && (is_moderate(p.x) && is_moderate(p.y)
                    ==> is_placed(points[0], p, x)),
                PathEl::LineTo(p) => points.len() == 1 && (is_moderate(p.x) && is_moderate(p.y)
                    ==> is_placed(points[0], p, x)),
                PathEl::QuadTo(_, p) => points.len() == 1 && (is_moderate(p.x) && is_moderate(p.y)
                    ==> is_placed(points[0], p, x)),
                PathEl::CurveTo(_, _, p) => points.len() == 1 && (is_moderate(p.x)
                    && is_moderate(p.y) ==> is_placed(points[0], p, x)),
                PathEl::ClosePath => points.len() == 0,
            }
        }),
{
    let points = outline_on_page(unit, seq![step], x);
    assert(seq![step].drop_last().len() == 0);
    assert(stops(seq![step].drop_last()) == Seq::<Point>::empty());
    if let Some(p) = step.end() {
        assert(stops(seq![step]) == seq![p]);
        assert(points == seq![on_page(unit, p, x)]);
        wide_constants_are_numbers();
        if is_moderate(p.x) && is_moderate(p.y) {
            tenths_are_placed(unit, p.x, x);
            tenths_are_placed(unit, p.y, double(WIDE_ZERO));
        }
    }
}

/// The points along an outline are as many as its steps that do not close a contour.
pub proof fn an_outline_counts_its_ends<F: Fn(Op, u64, u64) -> u64>(
    unit: FloatUnit<F>,
    steps: Seq<PathEl>,
    x: Double,
)
    ensures
        outline_on_page(unit, steps, x).len() == steps.filter(
            |step: PathEl| step !is ClosePath,
        ).len(),
    decreases steps.len(),
{
    reveal(Seq::filter);
    if steps.len() > 0 {
        an_outline_counts_its_ends(unit, steps.drop_last(), x);
    }
}

/// The k-th point along an outline is where the k-th of its steps that do not close a
/// contour ends: a step gives the same point wherever in the outline it stands.
pub proof fn points_stand_where_steps_end<F: Fn(Op, u64, u64) -> u64>(
    unit: FloatUnit<F>,
    steps: Seq<PathEl>,
    x: Double,
    i: int,
)
    requires
        0 <= i < steps.len(),
        steps[i] !is ClosePath,
    ensures
        ({
            let k = outline_on_page(unit, steps.take(i), x).len() as int;
            &&& k < outline_on_page(unit, steps, x).len()
            &&& outline_on_page(unit, steps, x)[k] == outline_on_page(unit, seq![steps[i]], x)[0]
        }),
{
    let (head, one, rest) = (steps.take(i), seq![steps[i]], steps.skip(i + 1));
    assert(steps == head + (one + rest));
    outlines_put_together(unit, head, one + rest, x);
    outlines_put_together(unit, one, rest, x);
    assert(one.drop_last().len() == 0);
    assert(stops(one.drop_last()).len() == 0);
    assert(one.last() == steps[i]);
    assert(outline_on_page(unit, one, x).len() == 1);
}

/// The trail one glyph further. A glyph that is passed over, or has no outline, leaves
/// no points, and the next glyph starts a tenth of its advance further right. One that is
/// followed adds the points of its outline, from where the glyph starts, after those
/// before, and the next starts a tenth of the spacing bias further still.
pub proof fn one_more_glyph<F: Fn(Op, u64, u64) -> u64>(
    unit: FloatUnit<F>,
    glyphs: Seq<GlyphView>,
    glyph: GlyphView,
    skips: spec_fn(Option<Seq<PathEl>>) -> bool,
    bias_per_char: Single,
)
    requires
        computes_closely_wide(unit),
        is_moderate(trail_along(unit, glyphs, skips, bias_per_char).x),
        is_moderate(glyph.x_advance),
        finite(bias_per_char),
        extent(number(bias_per_char)) <= 0x1_0000_0000_0000_0000 as real,
    ensures
        ({
            let before = trail_along(unit, glyphs, skips, bias_per_char);
            let after = trail_along(unit, glyphs.push(glyph), skips, bias_per_char);
            let (x, advance) = (number_wide(before.x), number_wide(glyph.x_advance));
            let bias = number(bias_per_char);
            if glyph.outline is None || skips(glyph.outline) {
                &&& after.points == before.points
                &&& near_wide(
                    after.x,
                    x + advance / (10 as real),
                    wide_roundings(8, extent(x) + extent(advance)) + 8 as real * dust(),
                )
            } else {
                &&& after.points == before.points + outline_on_page(
                    unit,
                    glyph.outline->0,
                    before.x,
                )
                &&& near_wide(
                    after.x,
                    x + advance / (10 as real) + bias / (10 as real),
                    wide_roundings(16, extent(x) + extent(advance) + extent(bias)) + 32 as real
                        * dust(),
                )
            }
        }),
{
    assert(glyphs.push(glyph).drop_last() == glyphs);
    let before = trail_along(unit, glyphs, skips, bias_per_char);
    wide_constants_are_numbers();
    let tenth = (1 as real) / (10 as real);
    let zero = 0 as real;
    let (x, n) = (number_wide(before.x), number_wide(glyph.x_advance));
    assert(spread(n, tenth, zero, ulp_wide()) == extent(n) * ulp_wide()) by {
        assert(extent(tenth) * zero == zero);
        assert(zero * ulp_wide() == zero);
    }
    assert(n * tenth == n / (10 as real));
    let product = unit.times_wide(glyph.x_advance, double(WIDE_TENTH));
    wide_products_stay_near(unit, glyph.x_advance, double(WIDE_TENTH), n, tenth, zero, ulp_wide());
    let e = extent(n) * ulp_wide() + (extent(n * tenth) + extent(n) * ulp_wide()) * ulp_wide()
        + dust();
    wide_sums_stay_near(unit, before.x, product, x, n * tenth, zero, e);
    let moved = unit.plus_wide(before.x, product);
    let e_moved = zero + e + (extent(x + n * tenth) + zero + e) * ulp_wide() + dust();
    let wide_bias = unit.widened(bias_per_char);
    let m = number(bias_per_char);
    assert(spread(m, tenth, zero, ulp_wide()) == extent(m) * ulp_wide()) by {
        assert(extent(tenth) * zero == zero);
        assert(zero * ulp_wide() == zero);
    }
    assert(m * tenth == m / (10 as real));
    assert(near_wide(wide_bias, m, zero));
    wide_products_stay_near(unit, wide_bias, double(WIDE_TENTH), m, tenth, zero, ulp_wide());
    let f = extent(m) * ulp_wide() + (extent(m * tenth) + extent(m) * ulp_wide()) * ulp_wide()
        + dust();
    wide_sums_stay_near(
        unit,
        moved,
        unit.times_wide(wide_bias, double(WIDE_TENTH)),
        x + n * tenth,
        m * tenth,
        e_moved,
        f,
    );
}

/// A trail starts at the origin with nothing written.
pub proof fn a_trail_starts_at_the_origin<F: Fn(Op, u64, u64) -> u64>(
    unit: FloatUnit<F>,
    skips: spec_fn(Option<Seq<PathEl>>) -> bool,
    bias_per_char: Single,
)
    ensures
        ({
            let trail = trail_along(unit, Seq::<GlyphView>::empty(), skips, bias_per_char);
            trail.points.len() == 0 && number_wide(trail.x) == 0 as real
        }),
{
    wide_constants_are_numbers();
}

} // verus!
