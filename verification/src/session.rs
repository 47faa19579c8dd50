//! A handwriting session: a text, a font, a pen and a sheet of paper, and the ink
//! that comes of them.

use crate::constants::{HALF, ONE, SEVEN_TENTHS, TWO_AND_A_HALF, ZERO};
use crate::exact::{
    choices_are_those_of_numbers, clamps_are_those_of_numbers, constants_are_numbers, greater,
    lesser, near, number, ulp,
};
use crate::ink::{
    a_ribbon_counts_its_segments, a_ribbon_is_unique, build_ink_mesh, is_ribbon, InkMesh,
};
use crate::number::{single, unsigned_singles_are_ordered, Single};
use crate::outline::{PathEl, Point};
use crate::paper::{is_paper, PaperParams, PaperTexture};
use crate::physics::{fresh, HandProfile, PhysicsEngine, StrokePoint, Track};
use crate::rounding::finite;
use crate::segment::{
    cluster_texts, cluster_views, concatenation, segment_text, segments, Cluster, ClusterView,
};
use crate::shape::{
    font_fault_of, glyph_views, placements_of, shaped_glyphs, GlyphView, HarfBuzzGlyphSource,
    ShapeError, ShapedGlyph,
};
use crate::trail::{no_outline_no_points, points_along, trail_along};
use crate::unit::{FloatUnit, Op};
use vstd::prelude::*;

verus! {

/// What a session holds.
#[verifier::ext_equal]
pub struct Page {
    /// The text.
    pub text: Seq<char>,
    /// The clusters of the text.
    pub clusters: Seq<ClusterView>,
    /// The file of the font.
    pub font: Seq<u8>,
    /// The pen.
    pub pen: Track,
    /// The ink of the last run, if there is any.
    pub mesh: Option<InkMesh>,
    /// The paper.
    pub paper: PaperTexture,
    /// Red, green, blue and opacity of the ink.
    pub ink_color: [Single; 4],
    /// How wet the ink is, from 0 to 1.
    pub wetness: Single,
    /// Width of a stroke, in pixels.
    pub base_width: Single,
    /// Scale of the paper texture.
    pub paper_scale: Single,
    /// What the session grows from.
    pub seed: u64,
}

/// Everything of a single handwriting session.
pub struct Session {
    text: String,
    clusters: Vec<Cluster>,
    glyph_source: HarfBuzzGlyphSource,
    pen: PhysicsEngine,
    mesh: Option<InkMesh>,
    paper_texture: PaperTexture,
    ink_color: [Single; 4],
    wetness: Single,
    base_width: Single,
    paper_scale: Single,
    seed: u64,
}

impl View for Session {
    type V = Page;

    closed spec fn view(&self) -> Page {
        Page {
            text: self.text@,
            clusters: cluster_views(self.clusters@),
            font: self.glyph_source.font(),
            pen: self.pen@,
            mesh: self.mesh,
            paper: self.paper_texture,
            ink_color: self.ink_color,
            wetness: self.wetness,
            base_width: self.base_width,
            paper_scale: self.paper_scale,
            seed: self.seed,
        }
    }
}

/// Whether a page is new: no text, black ink, the standard paper and a rested
/// standard hand.
pub open spec fn is_new_page<F: Fn(Op, u64, u64) -> u64>(
    unit: FloatUnit<F>,
    font: Seq<u8>,
    seed: u64,
    dpi_mm: Single,
    now: u64,
    page: Page,
) -> bool {
    &&& page.text == Seq::<char>::empty()
    &&& page.clusters == Seq::<ClusterView>::empty()
    &&& page.font == font
    &&& page.pen == fresh(HandProfile::standard(), dpi_mm, now)
    &&& page.mesh is None
    &&& is_paper(unit, PaperParams::standard(), page.paper)
    &&& page.ink_color == [single(ZERO), single(ZERO), single(ZERO), single(ONE)]
    &&& page.wetness == single(SEVEN_TENTHS)
    &&& page.base_width == single(TWO_AND_A_HALF)
    &&& page.paper_scale == single(ONE)
    &&& page.seed == seed
}

/// A page with a new text in given clusters: the pen starts again and the ink of
/// the text before is gone.
pub open spec fn fed(page: Page, text: Seq<char>, clusters: Seq<ClusterView>, now: u64) -> Page {
    Page {
        text,
        clusters,
        pen: fresh(page.pen.profile, page.pen.dpi_mm, now),
        mesh: None,
        ..page
    }
}

/// Whether ink is what a pen leaves along points. The pen takes two points at least.
/// `trace` gives the stroke of the pen along the points, with a base width and a
/// wetness.
pub open spec fn is_ink<
    F: Fn(Op, u64, u64) -> u64,
    T: Fn(&Vec<Point>, Single, Single) -> Vec<StrokePoint>,
>(
    unit: FloatUnit<F>,
    trace: T,
    base_width: Single,
    wetness: Single,
    points: Seq<Point>,
    mesh: Option<InkMesh>,
) -> bool {
    match mesh {
        None => points.len() < 2,
        Some(mesh) => points.len() >= 2 && exists|way: Vec<Point>, stroke: Vec<StrokePoint>|
            {
                &&& way@ == points
                &&& #[trigger] call_ensures(trace, (&way, base_width, wetness), stroke)
                &&& is_ribbon(unit, stroke@, mesh)
            },
    }
}

/// Whether a pen can be led along any points.
pub open spec fn traces<T: Fn(&Vec<Point>, Single, Single) -> Vec<StrokePoint>>(trace: T) -> bool {
    forall|way: &Vec<Point>, base_width: Single, wetness: Single|
        call_requires(trace, (way, base_width, wetness))
}

/// The outlines that a session without script rules passes over: none.
pub open spec fn passes_none() -> spec_fn(Option<Seq<PathEl>>) -> bool {
    |outline: Option<Seq<PathEl>>| false
}

/// The points along glyphs, none of which is passed over.
pub fn glyph_points<F: Fn(Op, u64, u64) -> u64>(
    unit: &FloatUnit<F>,
    glyphs: &Vec<ShapedGlyph>,
    bias_per_char: Single,
) -> (r: Vec<Point>)
    ensures
        r@ == trail_along(*unit, glyph_views(glyphs@), passes_none(), bias_per_char).points,
{
    let passes = |glyph: &ShapedGlyph| -> (skipped: bool)
        ensures
            !skipped,
        {
            false
        };
    points_along(unit, glyphs, passes, bias_per_char, Ghost(passes_none()))
}

impl Session {
    /// A session with a font. The pen writes with the standard hand, on a screen of
    /// `dpi_mm` pixels to the millimetre, from `now` on.
    pub fn new<F: Fn(Op, u64, u64) -> u64>(
        unit: &FloatUnit<F>,
        font_data: &[u8],
        seed: u64,
        dpi_mm: Single,
        now: u64,
    ) -> (r: Result<Session, ShapeError>)
        ensures
            match r {
                Ok(session) => {
                    &&& font_fault_of(font_data@) is None
                    &&& font_data@.len() > 0
                    &&& is_new_page(*unit, font_data@, seed, dpi_mm, now, session@)
                },
                Err(ShapeError::FontLoad(reason)) => font_fault_of(font_data@) == Some(reason@),
                Err(ShapeError::ShapingFailed) => false,
            },
    {
        let glyph_source = match HarfBuzzGlyphSource::from_bytes(font_data) {
            Ok(source) => source,
            Err(error) => return Err(error),
        };
        let clusters: Vec<Cluster> = Vec::new();
        let session = Session {
            text: String::new(),
            clusters,
            glyph_source,
            pen: PhysicsEngine::new(HandProfile::default(), dpi_mm, now),
            mesh: None,
            paper_texture: PaperTexture::generate(unit, &PaperParams::default()),
            ink_color: [single(ZERO), single(ZERO), single(ZERO), single(ONE)],
            wetness: single(SEVEN_TENTHS),
            base_width: single(TWO_AND_A_HALF),
            paper_scale: single(ONE),
            seed,
        };
        assert(session@.clusters == Seq::<ClusterView>::empty());
        Ok(session)
    }

    /// Sets the color of the ink: red, green, blue and opacity, from 0 to 1.
    pub fn set_ink_color(&mut self, r: Single, g: Single, b: Single, a: Single)
        ensures
            final(self)@ == (Page { ink_color: [r, g, b, a], ..old(self)@ }),
    {
        self.ink_color = [r, g, b, a];
    }

    /// Sets how wet the ink is, kept between 0 and 1.
    pub fn set_wetness(&mut self, wetness: Single)
        ensures
            final(self)@ == (Page {
                wetness: wetness.clamped(single(ZERO), single(ONE)),
                ..old(self)@
            }),
            finite(wetness) ==> number(final(self)@.wetness) == greater(
                0 as real,
                lesser(number(wetness), 1 as real),
            ),
    {
        proof {
            unsigned_singles_are_ordered(single(ZERO), single(ONE));
            constants_are_numbers();
            if finite(wetness) {
                clamps_are_those_of_numbers(wetness, single(ZERO), single(ONE));
            }
        }
        self.wetness = wetness.clamp(single(ZERO), single(ONE));
    }

    /// Sets the width of a stroke in pixels, at least half a pixel.
    pub fn set_base_width(&mut self, width: Single)
        ensures
            final(self)@ == (Page { base_width: width.larger(single(HALF)), ..old(self)@ }),
            finite(width) ==> number(final(self)@.base_width) == greater(
                number(width),
                (1 as real) / (2 as real),
            ),
    {
        proof {
            constants_are_numbers();
            if finite(width) {
                choices_are_those_of_numbers(width, single(HALF));
            }
        }
        self.base_width = width.max(single(HALF));
    }

    /// Takes a new text in place of the one before.
    pub fn feed_text(&mut self, text: &str, now: u64)
        ensures
            final(self)@ == fed(old(self)@, text@, segments(text@), now),
            concatenation(cluster_texts(final(self)@.clusters)) == text@,
    {
        let clusters = segment_text(text);
        self.feed_clusters(text, clusters, now);
    }

    /// Takes a new text that is cut into clusters already.
    pub(crate) fn feed_clusters(&mut self, text: &str, clusters: Vec<Cluster>, now: u64)
        ensures
            final(self)@ == fed(old(self)@, text@, cluster_views(clusters@), now),
    {
        self.text = text.to_string();
        self.clusters = clusters;
        self.pen.reset(now);
        self.mesh = None;
    }

    /// Shapes the text, if there is one.
    pub(crate) fn shape<F: Fn(Op, u64, u64) -> u64>(&self, unit: &FloatUnit<F>) -> (r: Result<
        Option<Vec<ShapedGlyph>>,
        ShapeError,
    >)
        ensures
            match r {
                Ok(None) => self@.text.len() == 0,
                Ok(Some(glyphs)) => self@.text.len() > 0 && (placements_of(self@.font, self@.text)
                    matches Some(at) && glyph_views(glyphs@) == shaped_glyphs(
                    *unit,
                    self@.font,
                    at,
                )),
                Err(error) => error is ShapingFailed && self@.text.len() > 0 && placements_of(
                    self@.font,
                    self@.text,
                ) is None,
            },
    {
        if self.text.as_str().is_empty() {
            return Ok(None);
        }
        match self.glyph_source.shape_text(unit, self.text.as_str()) {
            Ok(glyphs) => Ok(Some(glyphs)),
            Err(error) => Err(error),
        }
    }

    /// Takes the ink away.
    pub(crate) fn clear_ink(&mut self)
        ensures
            final(self)@ == (Page { mesh: None, ..old(self)@ }),
    {
        self.mesh = None;
    }

    /// Leads the pen along points and keeps the ink.
    pub fn ink_points<
        F: Fn(Op, u64, u64) -> u64,
        T: Fn(&Vec<Point>, Single, Single) -> Vec<StrokePoint>,
    >(&mut self, unit: &FloatUnit<F>, points: &Vec<Point>, trace: &T)
        requires
            traces(*trace),
        ensures
            final(self)@ == (Page { mesh: final(self)@.mesh, ..old(self)@ }),
            is_ink(
                *unit,
                *trace,
                old(self)@.base_width,
                old(self)@.wetness,
                points@,
                final(self)@.mesh,
            ),
    {
        if points.len() < 2 {
            self.mesh = None;
            return ;
        }
        let stroke = trace(points, self.base_width, self.wetness);
        let mesh = build_ink_mesh(unit, stroke.as_slice(), self.paper_scale);
        self.mesh = Some(mesh);
        proof {
            assert(is_ribbon(*unit, stroke@, mesh));
            assert(call_ensures(*trace, (points, self.base_width, self.wetness), stroke));
        }
    }

    /// Writes the text: shapes it, follows the outlines of its glyphs, leads the pen
    /// along them and keeps the ink. `bias_per_char` is the spacing bias of the
    /// hand, `trace` gives the stroke of the pen along points.
    pub fn process<
        F: Fn(Op, u64, u64) -> u64,
        T: Fn(&Vec<Point>, Single, Single) -> Vec<StrokePoint>,
    >(&mut self, unit: &FloatUnit<F>, bias_per_char: Single, trace: &T) -> (r: Result<
        (),
        ShapeError,
    >)
        requires
            traces(*trace),
        ensures
            ({
                let page = old(self)@;
                if page.text.len() == 0 {
                    r is Ok && final(self)@ == (Page { mesh: None, ..page })
                } else {
                    match placements_of(page.font, page.text) {
                        Some(at) => {
                            let glyphs = shaped_glyphs(*unit, page.font, at);
                            &&& r is Ok
                            &&& final(self)@ == (Page { mesh: final(self)@.mesh, ..page })
                            &&& is_ink(
                                *unit,
                                *trace,
                                page.base_width,
                                page.wetness,
                                trail_along(*unit, glyphs, passes_none(), bias_per_char).points,
                                final(self)@.mesh,
                            )
                        },
                        None => {
                            &&& r matches Err(error) && error is ShapingFailed
                            &&& final(self)@ == page
                        },
                    }
                }
            }),
    {
        match self.shape(unit) {
            Ok(Some(glyphs)) => {
                let points = glyph_points(unit, &glyphs, bias_per_char);
                self.ink_points(unit, &points, trace);
                Ok(())
            },
            Ok(None) => {
                self.clear_ink();
                Ok(())
            },
            Err(error) => Err(error),
        }
    }

    /// The ink, if there is any.
    pub fn mesh(&self) -> (r: Option<&InkMesh>)
        ensures
            match r {
                Some(mesh) => self@.mesh == Some(*mesh),
                None => self@.mesh is None,
            },
    {
        self.mesh.as_ref()
    }

    /// The paper.
    pub fn paper_texture(&self) -> (r: &PaperTexture)
        ensures
            *r == self@.paper,
    {
        &self.paper_texture
    }

    /// The color of the ink.
    pub fn ink_color(&self) -> (r: [Single; 4])
        ensures
            r == self@.ink_color,
    {
        self.ink_color
    }

    /// How wet the ink is.
    pub fn wetness(&self) -> (r: Single)
        ensures
            r == self@.wetness,
    {
        self.wetness
    }

    /// The pen, to be tuned.
    pub fn pen_mut(&mut self) -> (r: &mut PhysicsEngine)
        ensures
            r@ == old(self)@.pen,
            final(self)@ == (Page { pen: final(r)@, ..old(self)@ }),
    {
        &mut self.pen
    }

    /// The text.
    pub fn text(&self) -> (r: &str)
        ensures
            r@ == self@.text,
    {
        self.text.as_str()
    }

    /// The clusters of the text.
    pub fn clusters(&self) -> (r: &[Cluster])
        ensures
            cluster_views(r@) == self@.clusters,
    {
        self.clusters.as_slice()
    }
}

/// A new text replaces the one before: nothing of the first text, its clusters, its
/// pen or its ink is left once the second is there.
pub proof fn a_text_replaces_the_last(
    page: Page,
    first: Seq<char>,
    first_clusters: Seq<ClusterView>,
    before: u64,
    second: Seq<char>,
    second_clusters: Seq<ClusterView>,
    now: u64,
)
    ensures
        fed(fed(page, first, first_clusters, before), second, second_clusters, now) == fed(
            page,
            second,
            second_clusters,
            now,
        ),
        fed(page, second, second_clusters, now).mesh is None,
{
}

/// Whatever wetness is set that is a number, the one that is kept is from 0 to 1.
pub proof fn wetness_stays_in_range(wetness: Single)
    requires
        !wetness.not_a_number(),
    ensures
        ({
            let kept = wetness.clamped(single(ZERO), single(ONE));
            &&& !kept.not_a_number()
            &&& single(ZERO).value() <= kept.value() <= single(ONE).value()
        }),
{
    unsigned_singles_are_ordered(single(ZERO), single(ONE));
}

/// Whatever width is set, the one that is kept is at least half a pixel.
pub proof fn strokes_keep_their_width(width: Single)
    ensures
        ({
            let kept = width.larger(single(HALF));
            !kept.not_a_number() && single(HALF).value() <= kept.value()
        }),
{
}

/// A text whose glyphs have no outlines leaves no ink.
pub proof fn no_outline_no_ink<
    F: Fn(Op, u64, u64) -> u64,
    T: Fn(&Vec<Point>, Single, Single) -> Vec<StrokePoint>,
>(
    unit: FloatUnit<F>,
    trace: T,
    base_width: Single,
    wetness: Single,
    glyphs: Seq<GlyphView>,
    bias_per_char: Single,
    mesh: Option<InkMesh>,
)
    requires
        forall|i: int| 0 <= i < glyphs.len() ==> (#[trigger] glyphs[i]).outline is None,
        is_ink(
            unit,
            trace,
            base_width,
            wetness,
            trail_along(unit, glyphs, passes_none(), bias_per_char).points,
            mesh,
        ),
    ensures
        mesh is None,
{
    no_outline_no_points(unit, glyphs, passes_none(), bias_per_char);
}

/// Whether a pen leaves the same stroke each time it is led along the same points.
pub open spec fn traces_once<T: Fn(&Vec<Point>, Single, Single) -> Vec<StrokePoint>>(
    trace: T,
) -> bool {
    forall|
        a: &Vec<Point>,
        b: &Vec<Point>,
        base_width: Single,
        wetness: Single,
        r: Vec<StrokePoint>,
        s: Vec<StrokePoint>,
    |
        a@ == b@ && #[trigger] call_ensures(trace, (a, base_width, wetness), r)
            && #[trigger] call_ensures(trace, (b, base_width, wetness), s) ==> r@ == s@
}

/// The same points leave the same ink, where the pen leaves the same stroke each time.
pub proof fn ink_is_repeatable<
    F: Fn(Op, u64, u64) -> u64,
    T: Fn(&Vec<Point>, Single, Single) -> Vec<StrokePoint>,
>(
    unit: FloatUnit<F>,
    trace: T,
    base_width: Single,
    wetness: Single,
    points: Seq<Point>,
    first: Option<InkMesh>,
    second: Option<InkMesh>,
)
    requires
        traces_once(trace),
        is_ink(unit, trace, base_width, wetness, points, first),
        is_ink(unit, trace, base_width, wetness, points, second),
    ensures
        match (first, second) {
            (Some(a), Some(b)) => a.vertices@ == b.vertices@ && a.indices@ == b.indices@,
            (None, None) => true,
            _ => false,
        },
{
    if let (Some(a), Some(b)) = (first, second) {
        let (way_a, stroke_a) = choose|way: Vec<Point>, stroke: Vec<StrokePoint>|
            {
                &&& way@ == points
                &&& #[trigger] call_ensures(trace, (&way, base_width, wetness), stroke)
                &&& is_ribbon(unit, stroke@, a)
            };
        let (way_b, stroke_b) = choose|way: Vec<Point>, stroke: Vec<StrokePoint>|
            {
                &&& way@ == points
                &&& #[trigger] call_ensures(trace, (&way, base_width, wetness), stroke)
                &&& is_ribbon(unit, stroke@, b)
            };
        assert(stroke_a@ == stroke_b@);
        a_ribbon_is_unique(unit, stroke_a@, a, b);
    }
}

/// A new text leaves the font, the paper, the ink and the settings of the hand as they
/// are; the pen is at rest and its session starts now.
pub proof fn a_text_keeps_the_setting(
    page: Page,
    text: Seq<char>,
    clusters: Seq<ClusterView>,
    now: u64,
)
    ensures
        ({
            let after = fed(page, text, clusters, now);
            &&& after.text == text
            &&& after.clusters == clusters
            &&& after.font == page.font
            &&& after.paper == page.paper
            &&& after.ink_color == page.ink_color
            &&& after.wetness == page.wetness
            &&& after.base_width == page.base_width
            &&& after.paper_scale == page.paper_scale
            &&& after.seed == page.seed
            &&& after.pen.profile == page.pen.profile
            &&& after.pen.dpi_mm == page.pen.dpi_mm
            &&& after.pen.session_start == now
            &&& after.pen.stroke_start == now
            &&& after.pen.state.is_down == 0
        }),
{
}

/// A new page in numbers: opaque black ink, wet to seven tenths, strokes of two and a half
/// pixels on a paper at its own scale.
pub proof fn a_new_page_in_numbers<F: Fn(Op, u64, u64) -> u64>(
    unit: FloatUnit<F>,
    font: Seq<u8>,
    seed: u64,
    dpi_mm: Single,
    now: u64,
    page: Page,
)
    requires
        is_new_page(unit, font, seed, dpi_mm, now, page),
    ensures
        number(page.ink_color[0]) == 0 as real,
        number(page.ink_color[1]) == 0 as real,
        number(page.ink_color[2]) == 0 as real,
        number(page.ink_color[3]) == 1 as real,
        near(page.wetness, (7 as real) / (10 as real), ulp()),
        number(page.base_width) == (5 as real) / (2 as real),
        number(page.paper_scale) == 1 as real,
        page.text.len() == 0,
        page.clusters.len() == 0,
        page.mesh is None,
        page.paper.width == 1024,
        page.paper.height == 1024,
        page.pen.dpi_mm == dpi_mm,
        page.pen.session_start == now,
        page.seed == seed,
{
    constants_are_numbers();
}

/// Two points or more leave ink, fewer leave none. The ink is the ribbon along a stroke
/// that the pen leaves along these points, with this width and this wetness: a segment for
/// each two points of the stroke that follow each other.
pub proof fn two_points_leave_ink<
    F: Fn(Op, u64, u64) -> u64,
    T: Fn(&Vec<Point>, Single, Single) -> Vec<StrokePoint>,
>(
    unit: FloatUnit<F>,
    trace: T,
    base_width: Single,
    wetness: Single,
    points: Seq<Point>,
    mesh: Option<InkMesh>,
)
    requires
        is_ink(unit, trace, base_width, wetness, points, mesh),
    ensures
        mesh is Some <==> points.len() > 1,
        mesh matches Some(ink) ==> exists|way: Vec<Point>, stroke: Vec<StrokePoint>|
            {
                &&& way@ == points
                &&& #[trigger] call_ensures(trace, (&way, base_width, wetness), stroke)
                &&& ink.indices@.len() == if stroke@.len() < 2 {
                    0
                } else {
                    6 * (stroke@.len() - 1)
                }
            },
{
    if let Some(ink) = mesh {
        let (way, stroke) = choose|way: Vec<Point>, stroke: Vec<StrokePoint>|
            {
                &&& way@ == points
                &&& #[trigger] call_ensures(trace, (&way, base_width, wetness), stroke)
                &&& is_ribbon(unit, stroke@, ink)
            };
        a_ribbon_counts_its_segments(unit, stroke@, ink);
    }
}

/// A session without script rules passes no glyph over, whatever its outline.
pub proof fn no_rules_pass_nothing_over(outline: Option<Seq<PathEl>>)
    ensures
        !passes_none()(outline),
{
}

} // verus!
