//! A handwriting session that finds the script of its text and writes by the rules
//! of that script.

use crate::constants::{HALF, ONE, ZERO};
use crate::ink::InkMesh;
use crate::latin::{latin_keeps_the_text, LatinPolicy};
use crate::myanmar::{myanmar_keeps_the_text, MyanmarPolicy};
use crate::number::{single, Single};
use crate::outline::{PathEl, Point};
use crate::paper::PaperTexture;
use crate::physics::{PhysicsEngine, StrokePoint};
use crate::policy::{str_contents, GlyphProbe, ScriptPolicy};
use crate::segment::{
    cluster_texts, cluster_views, concatenation, detect_script_run, is_majority, segment_text,
    segments, Cluster, ClusterView, Script,
};
use crate::session::{fed, is_ink, is_new_page, traces, Page};
use crate::shape::{
    font_fault_of, glyph_views, placements_of, shaped_glyphs, GlyphView, ShapeError, ShapedGlyph,
};
use crate::trail::{points_along, trail_along};
use crate::unit::{FloatUnit, Op};
use vstd::prelude::*;

verus! {

/// The rules that a session writes by.
#[derive(Clone, Copy, Debug, PartialEq, Eq, Structural)]
pub enum Pack {
    Latin,
    Myanmar,
    Arabic,
}

impl Pack {
    /// The rules of a script: Myanmar has its own, Arabic, Syriac and Thaana share
    /// theirs, every other script is written like Latin.
    pub open spec fn of_script(script: Script) -> Pack {
        if script == Script::Myanmar {
            Pack::Myanmar
        } else if script == Script::Arabic || script == Script::Syriac || script
            == Script::Thaana {
            Pack::Arabic
        } else {
            Pack::Latin
        }
    }

    /// The rules of a script.
    pub fn for_script(script: Script) -> (r: Pack)
        ensures
            r == Pack::of_script(script),
    {
        match script {
            Script::Myanmar => Pack::Myanmar,
            Script::Arabic => Pack::Arabic,
            Script::Syriac => Pack::Arabic,
            Script::Thaana => Pack::Arabic,
            _ => Pack::Latin,
        }
    }

    /// The clusters that pieces are joined into by these rules.
    pub open spec fn joined<A: ScriptPolicy>(
        self,
        arabic: A,
        pieces: Seq<Seq<char>>,
    ) -> Seq<ClusterView> {
        match self {
            Pack::Latin => LatinPolicy.joined(pieces),
            Pack::Myanmar => MyanmarPolicy.joined(pieces),
            Pack::Arabic => arabic.joined(pieces),
        }
    }

    /// The outlines that these rules pass over.
    pub open spec fn passes<A: ScriptPolicy>(self, arabic: A) -> spec_fn(
        Option<Seq<PathEl>>,
    ) -> bool {
        |outline: Option<Seq<PathEl>>|
            match self {
                Pack::Latin => LatinPolicy.needs_bitmap(outline),
                Pack::Myanmar => MyanmarPolicy.needs_bitmap(outline),
                Pack::Arabic => arabic.needs_bitmap(outline),
            }
    }

    /// Joins pieces into clusters by these rules.
    pub fn join<A: ScriptPolicy>(self, arabic: &A, pieces: &[&str]) -> (r: Vec<Cluster>)
        ensures
            cluster_views(r@) == self.joined(*arabic, str_contents(pieces@)),
    {
        match self {
            Pack::Latin => LatinPolicy.cluster_join_rule(pieces),
            Pack::Myanmar => MyanmarPolicy.cluster_join_rule(pieces),
            Pack::Arabic => arabic.cluster_join_rule(pieces),
        }
    }

    /// Whether these rules pass a glyph over.
    pub fn skips<A: ScriptPolicy>(self, arabic: &A, glyph: &ShapedGlyph) -> (r: bool)
        ensures
            r == self.passes(*arabic)(glyph@.outline),
    {
        let probe = GlyphProbe::from_glyph_info(glyph);
        match self {
            Pack::Latin => LatinPolicy.requires_bitmap_fallback(&probe),
            Pack::Myanmar => MyanmarPolicy.requires_bitmap_fallback(&probe),
            Pack::Arabic => arabic.requires_bitmap_fallback(&probe),
        }
    }

    /// The points along glyphs, without those that these rules pass over.
    pub fn glyph_points<F: Fn(Op, u64, u64) -> u64, A: ScriptPolicy>(
        self,
        unit: &FloatUnit<F>,
        arabic: &A,
        glyphs: &Vec<ShapedGlyph>,
        bias_per_char: Single,
    ) -> (r: Vec<Point>)
        ensures
            r@ == trail_along(
                *unit,
                glyph_views(glyphs@),
                self.passes(*arabic),
                bias_per_char,
            ).points,
    {
        let passes = |glyph: &ShapedGlyph| -> (skipped: bool)
            ensures
                skipped == self.passes(*arabic)(glyph@.outline),
            {
                self.skips(arabic, glyph)
            };
        points_along(unit, glyphs, passes, bias_per_char, Ghost(self.passes(*arabic)))
    }
}

/// A handwriting session. `A` is the policy of the Arabic script and its kin.
pub struct Session<A: ScriptPolicy> {
    base: crate::session::Session,
    pack: Pack,
    arabic: A,
}

impl<A: ScriptPolicy> Session<A> {
    /// What the session holds.
    pub closed spec fn page(self) -> Page {
        self.base@
    }

    /// The rules that the session writes by.
    pub closed spec fn pack(self) -> Pack {
        self.pack
    }

    /// The policy of the Arabic script.
    pub closed spec fn arabic(self) -> A {
        self.arabic
    }

    /// A session with a font. It writes by the rules of Latin until it has a text.
    pub fn new<F: Fn(Op, u64, u64) -> u64>(
        unit: &FloatUnit<F>,
        font_data: &[u8],
        seed: u64,
        dpi_mm: Single,
        now: u64,
        arabic: A,
    ) -> (r: Result<Session<A>, ShapeError>)
        ensures
            match r {
                Ok(session) => {
                    &&& font_fault_of(font_data@) is None
                    &&& font_data@.len() > 0
                    &&& is_new_page(*unit, font_data@, seed, dpi_mm, now, session.page())
                    &&& session.pack() == Pack::Latin
                    &&& session.arabic() == arabic
                },
                Err(ShapeError::FontLoad(reason)) => font_fault_of(font_data@) == Some(reason@),
                Err(ShapeError::ShapingFailed) => false,
            },
    {
        match crate::session::Session::new(unit, font_data, seed, dpi_mm, now) {
            Ok(base) => Ok(Session { base, pack: Pack::Latin, arabic }),
            Err(error) => Err(error),
        }
    }

    /// Sets the color of the ink: red, green, blue and opacity, from 0 to 1.
    pub fn set_ink_color(&mut self, r: Single, g: Single, b: Single, a: Single)
        ensures
            final(self).page() == (Page { ink_color: [r, g, b, a], ..old(self).page() }),
            final(self).pack() == old(self).pack(),
            final(self).arabic() == old(self).arabic(),
    {
        self.base.set_ink_color(r, g, b, a);
    }

    /// Sets how wet the ink is, kept between 0 and 1.
    pub fn set_wetness(&mut self, wetness: Single)
        ensures
            final(self).page() == (Page {
                wetness: wetness.clamped(single(ZERO), single(ONE)),
                ..old(self).page()
            }),
            final(self).pack() == old(self).pack(),
            final(self).arabic() == old(self).arabic(),
    {
        self.base.set_wetness(wetness);
    }

    /// Sets the width of a stroke in pixels, at least half a pixel.
    pub fn set_base_width(&mut self, width: Single)
        ensures
            final(self).page() == (Page {
                base_width: width.larger(single(HALF)),
                ..old(self).page()
            }),
            final(self).pack() == old(self).pack(),
            final(self).arabic() == old(self).arabic(),
    {
        self.base.set_base_width(width);
    }

    /// Takes a new text in place of the one before, and the rules of its most
    /// frequent script.
    pub fn feed_text(&mut self, text: &str, now: u64)
        ensures
            exists|script: Script|
                {
                    &&& #[trigger] is_majority(segments(text@), script)
                    &&& final(self).pack() == Pack::of_script(script)
                },
            final(self).page() == fed(
                old(self).page(),
                text@,
                final(self).pack().joined(old(self).arabic(), cluster_texts(segments(text@))),
                now,
            ),
            final(self).arabic() == old(self).arabic(),
            final(self).pack() != Pack::Arabic ==> concatenation(
                cluster_texts(final(self).page().clusters),
            ) == text@,
    {
        let script = detect_script_run(text);
        self.feed_in_script(text, script, now);
    }

    /// Takes a new text in place of the one before, and the rules of a script.
    pub fn feed_in_script(&mut self, text: &str, script: Script, now: u64)
        ensures
            final(self).pack() == Pack::of_script(script),
            final(self).page() == fed(
                old(self).page(),
                text@,
                Pack::of_script(script).joined(
                    old(self).arabic(),
                    cluster_texts(segments(text@)),
                ),
                now,
            ),
            final(self).arabic() == old(self).arabic(),
            Pack::of_script(script) != Pack::Arabic ==> concatenation(
                cluster_texts(final(self).page().clusters),
            ) == text@,
    {
        self.pack = Pack::for_script(script);
        let raw = segment_text(text);
        let mut pieces: Vec<&str> = Vec::new();
        let mut i: usize = 0;
        while i < raw.len()
            invariant
                i <= raw@.len(),
                str_contents(pieces@) == cluster_texts(cluster_views(raw@)).take(i as int),
            decreases raw@.len() - i,
        {
            let ghost before = pieces@;
            let piece = raw[i].text.as_str();
            pieces.push(piece);
            assert(str_contents(pieces@) == str_contents(before).push(piece@));
            assert(cluster_texts(cluster_views(raw@)).take(i + 1) == cluster_texts(
                cluster_views(raw@),
            ).take(i as int).push(piece@));
            i += 1;
        }
        let ghost texts = cluster_texts(segments(text@));
        assert(str_contents(pieces@) == texts);
        let clusters = self.pack.join(&self.arabic, pieces.as_slice());
        proof {
            latin_keeps_the_text(LatinPolicy, texts);
            myanmar_keeps_the_text(MyanmarPolicy, texts);
        }
        self.base.feed_clusters(text, clusters, now);
    }

    /// Writes the text: shapes it, follows the outlines of its glyphs without those
    /// that the rules pass over, leads the pen along them and keeps the ink.
    /// `bias_per_char` is the spacing bias of the hand, `trace` gives the stroke of
    /// the pen along points.
    pub fn process<
        F: Fn(Op, u64, u64) -> u64,
        T: Fn(&Vec<Point>, Single, Single) -> Vec<StrokePoint>,
    >(&mut self, unit: &FloatUnit<F>, bias_per_char: Single, trace: &T) -> (r: Result<
        (),
        ShapeError,
    >)
        requires
            traces(*trace),
        ensures
            final(self).pack() == old(self).pack(),
            final(self).arabic() == old(self).arabic(),
            ({
                let page = old(self).page();
                if page.text.len() == 0 {
                    r is Ok && final(self).page() == (Page { mesh: None, ..page })
                } else {
                    match placements_of(page.font, page.text) {
                        Some(at) => {
                            let glyphs = shaped_glyphs(*unit, page.font, at);
                            let passes = old(self).pack().passes(old(self).arabic());
                            &&& r is Ok
                            &&& final(self).page() == (Page {
                                mesh: final(self).page().mesh,
                                ..page
                            })
                            &&& is_ink(
                                *unit,
                                *trace,
                                page.base_width,
                                page.wetness,
                                trail_along(*unit, glyphs, passes, bias_per_char).points,
                                final(self).page().mesh,
                            )
                        },
                        None => {
                            &&& r matches Err(error) && error is ShapingFailed
                            &&& final(self).page() == page
                        },
                    }
                }
            }),
    {
        match self.base.shape(unit) {
            Ok(Some(glyphs)) => {
                let points = self.pack.glyph_points(unit, &self.arabic, &glyphs, bias_per_char);
                self.base.ink_points(unit, &points, trace);
                Ok(())
            },
            Ok(None) => {
                self.base.clear_ink();
                Ok(())
            },
            Err(error) => Err(error),
        }
    }

    /// The ink, if there is any.
    pub fn mesh(&self) -> (r: Option<&InkMesh>)
        ensures
            match r {
                Some(mesh) => self.page().mesh == Some(*mesh),
                None => self.page().mesh is None,
            },
    {
        self.base.mesh()
    }

    /// The paper.
    pub fn paper_texture(&self) -> (r: &PaperTexture)
        ensures
            *r == self.page().paper,
    {
        self.base.paper_texture()
    }

    /// The color of the ink.
    pub fn ink_color(&self) -> (r: [Single; 4])
        ensures
            r == self.page().ink_color,
    {
        self.base.ink_color()
    }

    /// How wet the ink is.
    pub fn wetness(&self) -> (r: Single)
        ensures
            r == self.page().wetness,
    {
        self.base.wetness()
    }

    /// The pen, to be tuned.
    pub fn pen_mut(&mut self) -> (r: &mut PhysicsEngine)
        ensures
            r@ == old(self).page().pen,
            final(self).page() == (Page { pen: final(r)@, ..old(self).page() }),
            final(self).pack() == old(self).pack(),
            final(self).arabic() == old(self).arabic(),
    {
        self.base.pen_mut()
    }

    /// The text.
    pub fn text(&self) -> (r: &str)
        ensures
            r@ == self.page().text,
    {
        self.base.text()
    }

    /// The clusters of the text.
    pub fn clusters(&self) -> (r: &[Cluster])
        ensures
            cluster_views(r@) == self.page().clusters,
    {
        self.base.clusters()
    }

    /// The rules that the session writes by.
    pub fn current_pack(&self) -> (r: Pack)
        ensures
            r == self.pack(),
    {
        self.pack
    }
}

/// A glyph that a session without script rules would not write is not written by
/// Latin rules either, and the other way round: both leave the same trail.
pub proof fn latin_writes_like_no_rules<F: Fn(Op, u64, u64) -> u64, A: ScriptPolicy>(
    unit: FloatUnit<F>,
    arabic: A,
    glyphs: Seq<GlyphView>,
    bias_per_char: Single,
)
    ensures
        trail_along(unit, glyphs, Pack::Latin.passes(arabic), bias_per_char) == trail_along(
            unit,
            glyphs,
            crate::session::passes_none(),
            bias_per_char,
        ),
    decreases glyphs.len(),
{
    if glyphs.len() > 0 {
        latin_writes_like_no_rules(unit, arabic, glyphs.drop_last(), bias_per_char);
    }
}

/// Only Myanmar has rules of its own. Arabic, Syriac and Thaana share the rules that the
/// caller brings; Latin, every other script and text without one are written as Latin.
pub proof fn scripts_have_their_rules(script: Script)
    ensures
        match script {
            Script::Myanmar => Pack::of_script(script) is Myanmar,
            Script::Arabic => Pack::of_script(script) is Arabic,
            Script::Syriac => Pack::of_script(script) is Arabic,
            Script::Thaana => Pack::of_script(script) is Arabic,
            Script::Latin => Pack::of_script(script) is Latin,
            Script::Unknown => Pack::of_script(script) is Latin,
            Script::Other { .. } => Pack::of_script(script) is Latin,
        },
{
}

/// The rules of a script join pieces and pass glyphs over as the policy of that script
/// does.
pub proof fn rules_are_those_of_their_policy<A: ScriptPolicy>(
    arabic: A,
    pieces: Seq<Seq<char>>,
    outline: Option<Seq<PathEl>>,
)
    ensures
        Pack::Latin.joined(arabic, pieces) == LatinPolicy.joined(pieces),
        Pack::Myanmar.joined(arabic, pieces) == MyanmarPolicy.joined(pieces),
        Pack::Arabic.joined(arabic, pieces) == arabic.joined(pieces),
        (Pack::Latin.passes(arabic))(outline) == LatinPolicy.needs_bitmap(outline),
        (Pack::Myanmar.passes(arabic))(outline) == MyanmarPolicy.needs_bitmap(outline),
        (Pack::Arabic.passes(arabic))(outline) == arabic.needs_bitmap(outline),
{
}

} // verus!
