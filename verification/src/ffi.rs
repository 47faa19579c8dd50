//! What the C interface decides: which arguments it refuses, which error code it
//! answers with, and how a drawing goes on from step to step.
//!
//! A pointer that may be null is an `Option` here.

use crate::constants::{HALF, ONE, ZERO};
use crate::number::{single, Single};
use crate::outline::Point;
use crate::paper::{a_paper_is_unique, PaperParams};
use crate::physics::StrokePoint;
use crate::segment::segments;
use crate::session::{fed, is_ink, is_new_page, passes_none, traces, Page, Session};
use crate::shape::{font_fault_of, placements_of, shaped_glyphs};
use crate::trail::trail_along;
use crate::unit::{FloatUnit, Op};
use vstd::prelude::*;
use vstd::utf8::{decode_utf8, valid_utf8};

verus! {

/// Stands for a session behind a handle.
pub struct HwSession;

/// Stands for a hand profile behind a handle.
pub struct HwProfile;

/// Stands for a canvas behind a handle.
pub struct HwCanvas;

/// What a call answers.
#[derive(Clone, Copy, Debug, PartialEq, Eq, Structural)]
pub enum HwError {
    HwSuccess,
    HwErrorInvalidArgument,
    HwErrorOutOfMemory,
    HwErrorInternal,
    HwErrorNotFound,
    HwErrorFontLoadFailed,
    HwErrorShapingFailed,
    HwErrorRenderFailed,
}

impl HwError {
    /// The number of an answer.
    pub open spec fn number(self) -> u32 {
        match self {
            HwError::HwSuccess => 0,
            HwError::HwErrorInvalidArgument => 1,
            HwError::HwErrorOutOfMemory => 2,
            HwError::HwErrorInternal => 3,
            HwError::HwErrorNotFound => 4,
            HwError::HwErrorFontLoadFailed => 5,
            HwError::HwErrorShapingFailed => 6,
            HwError::HwErrorRenderFailed => 7,
        }
    }

    /// The number of an answer.
    pub fn code(self) -> (r: u32)
        ensures
            r == self.number(),
    {
        match self {
            HwError::HwSuccess => 0,
            HwError::HwErrorInvalidArgument => 1,
            HwError::HwErrorOutOfMemory => 2,
            HwError::HwErrorInternal => 3,
            HwError::HwErrorNotFound => 4,
            HwError::HwErrorFontLoadFailed => 5,
            HwError::HwErrorShapingFailed => 6,
            HwError::HwErrorRenderFailed => 7,
        }
    }
}

/// Different answers have different numbers, and only success has zero.
pub proof fn numbers_tell_answers_apart(a: HwError, b: HwError)
    ensures
        a.number() == b.number() <==> a == b,
        a.number() == 0 <==> a == HwError::HwSuccess,
{
}

/// Calls `std::str::from_utf8`: the text that the bytes encode, or nothing where they
/// are not UTF-8.
#[verifier::external_body]
fn utf8_text(bytes: &[u8]) -> (r: Option<&str>)
    ensures
        match r {
            Some(text) => valid_utf8(bytes@) && text@ == decode_utf8(bytes@),
            None => !valid_utf8(bytes@),
        },
{
    std::str::from_utf8(bytes).ok()
}

/// The text of an argument: there has to be one, in UTF-8.
pub fn text_argument(text: Option<&[u8]>) -> (r: Option<&str>)
    ensures
        match (text, r) {
            (Some(bytes), Some(text)) => valid_utf8(bytes@) && text@ == decode_utf8(bytes@),
            (Some(bytes), None) => !valid_utf8(bytes@),
            (None, _) => r is None,
        },
        r is Some <==> text is Some && valid_utf8(text->0@),
{
    match text {
        Some(bytes) => utf8_text(bytes),
        None => None,
    }
}

/// Sets how wet the ink of a session is.
pub fn hw_session_set_wetness(session: Option<&mut Session>, wetness: Single) -> (r: HwError)
    ensures
        match session {
            Some(s) => r == HwError::HwSuccess && final(s)@ == (Page {
                wetness: wetness.clamped(single(ZERO), single(ONE)),
                ..s@
            }),
            None => r == HwError::HwErrorInvalidArgument,
        },
{
    match session {
        Some(s) => {
            s.set_wetness(wetness);
            HwError::HwSuccess
        },
        None => HwError::HwErrorInvalidArgument,
    }
}

/// Sets the color of the ink of a session: red, green, blue and opacity.
pub fn hw_session_set_ink_color(
    session: Option<&mut Session>,
    red: Single,
    green: Single,
    blue: Single,
    alpha: Single,
) -> (r: HwError)
    ensures
        match session {
            Some(s) => r == HwError::HwSuccess && final(s)@ == (Page {
                ink_color: [red, green, blue, alpha],
                ..s@
            }),
            None => r == HwError::HwErrorInvalidArgument,
        },
{
    match session {
        Some(s) => {
            s.set_ink_color(red, green, blue, alpha);
            HwError::HwSuccess
        },
        None => HwError::HwErrorInvalidArgument,
    }
}

/// Sets the width of a stroke of a session, in pixels.
pub fn hw_session_set_base_width(session: Option<&mut Session>, width: Single) -> (r: HwError)
    ensures
        match session {
            Some(s) => r == HwError::HwSuccess && final(s)@ == (Page {
                base_width: width.larger(single(HALF)),
                ..s@
            }),
            None => r == HwError::HwErrorInvalidArgument,
        },
{
    match session {
        Some(s) => {
            s.set_base_width(width);
            HwError::HwSuccess
        },
        None => HwError::HwErrorInvalidArgument,
    }
}

/// Whether a page is what comes of a font that may be missing: nothing where there is
/// no font, where it is empty, or where it cannot be read, and a new page otherwise.
pub open spec fn is_created<F: Fn(Op, u64, u64) -> u64>(
    unit: FloatUnit<F>,
    font_data: Option<Seq<u8>>,
    seed: u64,
    dpi_mm: Single,
    now: u64,
    page: Option<Page>,
) -> bool {
    match (font_data, page) {
        (Some(data), Some(page)) => {
            &&& data.len() > 0
            &&& font_fault_of(data) is None
            &&& is_new_page(unit, data, seed, dpi_mm, now, page)
        },
        (Some(data), None) => data.len() == 0 || font_fault_of(data) is Some,
        (None, page) => page is None,
    }
}

/// The bytes of an argument, if it is there.
pub open spec fn bytes_of(bytes: Option<&[u8]>) -> Option<Seq<u8>> {
    match bytes {
        Some(bytes) => Some(bytes@),
        None => None,
    }
}

/// What a session holds, if there is one.
pub open spec fn page_of(session: Option<Session>) -> Option<Page> {
    match session {
        Some(session) => Some(session@),
        None => None,
    }
}

/// A session with a font from memory: nothing where there is no font, where it is
/// empty, or where it cannot be read.
pub fn hw_session_create<F: Fn(Op, u64, u64) -> u64>(
    unit: &FloatUnit<F>,
    font_data: Option<&[u8]>,
    seed: u64,
    dpi_mm: Single,
    now: u64,
) -> (r: Option<Session>)
    ensures
        is_created(*unit, bytes_of(font_data), seed, dpi_mm, now, page_of(r)),
{
    match font_data {
        Some(data) => {
            if data.len() == 0 {
                return None;
            }
            match Session::new(unit, data, seed, dpi_mm, now) {
                Ok(session) => Some(session),
                Err(_) => None,
            }
        },
        None => None,
    }
}

/// A session with a font from a file: nothing where the file could not be read, is
/// empty or holds no font. `contents` is what the file holds, if it could be read.
pub fn hw_session_create_from_file<F: Fn(Op, u64, u64) -> u64>(
    unit: &FloatUnit<F>,
    contents: Option<&[u8]>,
    seed: u64,
    dpi_mm: Single,
    now: u64,
) -> (r: Option<Session>)
    ensures
        is_created(*unit, bytes_of(contents), seed, dpi_mm, now, page_of(r)),
{
    match contents {
        Some(data) => match Session::new(unit, data, seed, dpi_mm, now) {
            Ok(session) => Some(session),
            Err(_) => None,
        },
        None => None,
    }
}

/// A session from a file is a session from the bytes of the file: with the same seed,
/// screen and time both are there or neither is, and they hold the same.
pub proof fn a_file_gives_what_its_bytes_give<F: Fn(Op, u64, u64) -> u64>(
    unit: FloatUnit<F>,
    contents: Option<Seq<u8>>,
    seed: u64,
    dpi_mm: Single,
    now: u64,
    from_memory: Option<Page>,
    from_file: Option<Page>,
)
    requires
        is_created(unit, contents, seed, dpi_mm, now, from_memory),
        is_created(unit, contents, seed, dpi_mm, now, from_file),
    ensures
        match (from_memory, from_file) {
            (Some(a), Some(b)) => {
                &&& a == (Page { paper: a.paper, ..b })
                &&& a.paper.width == b.paper.width
                &&& a.paper.height == b.paper.height
                &&& a.paper.diffuse_rgba@ == b.paper.diffuse_rgba@
                &&& a.paper.normal_rgba@ == b.paper.normal_rgba@
            },
            (None, None) => true,
            _ => false,
        },
{
    if let (Some(a), Some(b)) = (from_memory, from_file) {
        a_paper_is_unique(unit, PaperParams::standard(), a.paper, b.paper);
    }
}

/// Whether a page has taken a text and written it. `before` is the page that took
/// the text, `r` the answer.
pub open spec fn is_fed<
    F: Fn(Op, u64, u64) -> u64,
    T: Fn(&Vec<Point>, Single, Single) -> Vec<StrokePoint>,
>(
    unit: FloatUnit<F>,
    trace: T,
    bias_per_char: Single,
    before: Page,
    after: Page,
    r: HwError,
) -> bool {
    if before.text.len() == 0 {
        r == HwError::HwSuccess && after == before
    } else {
        match placements_of(before.font, before.text) {
            Some(at) => {
                let glyphs = shaped_glyphs(unit, before.font, at);
                &&& r == HwError::HwSuccess
                &&& after == (Page { mesh: after.mesh, ..before })
                &&& is_ink(
                    unit,
                    trace,
                    before.base_width,
                    before.wetness,
                    trail_along(unit, glyphs, passes_none(), bias_per_char).points,
                    after.mesh,
                )
            },
            None => r == HwError::HwErrorShapingFailed && after == before,
        }
    }
}

/// Gives a session a text in place of the one before, and writes it.
pub fn hw_session_feed_text<
    F: Fn(Op, u64, u64) -> u64,
    T: Fn(&Vec<Point>, Single, Single) -> Vec<StrokePoint>,
>(
    unit: &FloatUnit<F>,
    session: Option<&mut Session>,
    text: Option<&[u8]>,
    now: u64,
    bias_per_char: Single,
    trace: &T,
) -> (r: HwError)
    requires
        traces(*trace),
    ensures
        match (session, text) {
            (Some(s), Some(bytes)) => if valid_utf8(bytes@) {
                let words = decode_utf8(bytes@);
                is_fed(
                    *unit,
                    *trace,
                    bias_per_char,
                    fed(s@, words, segments(words), now),
                    final(s)@,
                    r,
                )
            } else {
                r == HwError::HwErrorInvalidArgument && final(s)@ == s@
            },
            (Some(s), None) => r == HwError::HwErrorInvalidArgument && final(s)@ == s@,
            (None, _) => r == HwError::HwErrorInvalidArgument,
        },
{
    match session {
        Some(s) => match text_argument(text) {
            Some(words) => {
                s.feed_text(words, now);
                match s.process(unit, bias_per_char, trace) {
                    Ok(_) => HwError::HwSuccess,
                    Err(_) => HwError::HwErrorShapingFailed,
                }
            },
            None => HwError::HwErrorInvalidArgument,
        },
        None => HwError::HwErrorInvalidArgument,
    }
}

/// What is left to do for a drawing.
#[derive(Clone, Copy, Debug, PartialEq, Eq, Structural)]
pub enum RenderStage {
    /// Make a renderer.
    CreateRenderer,
    /// Load the paper.
    LoadPaper,
    /// Draw the ink.
    DrawMesh,
    /// Read the pixels back.
    ReadPixels,
    /// Make room for the caller's copy.
    Allocate,
    /// Nothing; the answer.
    Finished(HwError),
}

impl RenderStage {
    /// What comes next once a step went well or failed.
    pub open spec fn next(self, ok: bool) -> RenderStage {
        match self {
            RenderStage::Finished(_) => self,
            RenderStage::Allocate => RenderStage::Finished(
                if ok {
                    HwError::HwSuccess
                } else {
                    HwError::HwErrorOutOfMemory
                },
            ),
            _ => if !ok {
                RenderStage::Finished(HwError::HwErrorRenderFailed)
            } else if self == RenderStage::CreateRenderer {
                RenderStage::LoadPaper
            } else if self == RenderStage::LoadPaper {
                RenderStage::DrawMesh
            } else if self == RenderStage::DrawMesh {
                RenderStage::ReadPixels
            } else {
                RenderStage::Allocate
            },
        }
    }

    /// What comes next once a step went well or failed.
    pub fn advance(self, ok: bool) -> (r: RenderStage)
        ensures
            r == self.next(ok),
    {
        match self {
            RenderStage::Finished(answer) => RenderStage::Finished(answer),
            RenderStage::Allocate => if ok {
                RenderStage::Finished(HwError::HwSuccess)
            } else {
                RenderStage::Finished(HwError::HwErrorOutOfMemory)
            },
            RenderStage::CreateRenderer => if ok {
                RenderStage::LoadPaper
            } else {
                RenderStage::Finished(HwError::HwErrorRenderFailed)
            },
            RenderStage::LoadPaper => if ok {
                RenderStage::DrawMesh
            } else {
                RenderStage::Finished(HwError::HwErrorRenderFailed)
            },
            RenderStage::DrawMesh => if ok {
                RenderStage::ReadPixels
            } else {
                RenderStage::Finished(HwError::HwErrorRenderFailed)
            },
            RenderStage::ReadPixels => if ok {
                RenderStage::Allocate
            } else {
                RenderStage::Finished(HwError::HwErrorRenderFailed)
            },
        }
    }
}

/// Where a drawing stands after some steps went well or failed.
pub open spec fn stage_after(start: RenderStage, steps: Seq<bool>) -> RenderStage
    decreases steps.len(),
{
    if steps.len() == 0 {
        start
    } else {
        stage_after(start, steps.drop_last()).next(steps.last())
    }
}

/// Starts a drawing of a session. The session and the places for the result have to
/// be there, the picture has to have a size, and there has to be ink.
pub fn hw_session_render_to_bitmap(
    session: Option<&Session>,
    width: u32,
    height: u32,
    has_data_place: bool,
    has_len_place: bool,
) -> (r: RenderStage)
    ensures
        r == match session {
            Some(s) => if !has_data_place || !has_len_place || width == 0 || height == 0 {
                RenderStage::Finished(HwError::HwErrorInvalidArgument)
            } else if s@.mesh is None {
                RenderStage::Finished(HwError::HwErrorNotFound)
            } else {
                RenderStage::CreateRenderer
            },
            None => RenderStage::Finished(HwError::HwErrorInvalidArgument),
        },
        r is CreateRenderer <==> session is Some && session->0@.mesh is Some && has_data_place
            && has_len_place && width > 0 && height > 0,
        r is CreateRenderer || r is Finished,
        r != RenderStage::Finished(HwError::HwSuccess),
{
    match session {
        Some(s) => {
            if !has_data_place || !has_len_place {
                return RenderStage::Finished(HwError::HwErrorInvalidArgument);
            }
            if width == 0 || height == 0 {
                return RenderStage::Finished(HwError::HwErrorInvalidArgument);
            }
            match s.mesh() {
                Some(_) => RenderStage::CreateRenderer,
                None => RenderStage::Finished(HwError::HwErrorNotFound),
            }
        },
        None => RenderStage::Finished(HwError::HwErrorInvalidArgument),
    }
}

/// A drawing that starts is finished after five steps. It succeeds exactly where all
/// of them went well, runs out of memory where only the last failed, and fails
/// otherwise.
pub proof fn a_drawing_answers_after_five_steps(steps: Seq<bool>)
    requires
        steps.len() == 5,
    ensures
        stage_after(RenderStage::CreateRenderer, steps) == RenderStage::Finished(
            if steps[0] && steps[1] && steps[2] && steps[3] {
                if steps[4] {
                    HwError::HwSuccess
                } else {
                    HwError::HwErrorOutOfMemory
                }
            } else {
                HwError::HwErrorRenderFailed
            },
        ),
{
    reveal_with_fuel(stage_after, 6);
    assert(steps.drop_last().drop_last().drop_last().drop_last().last() == steps[0]);
    assert(steps.drop_last().drop_last().drop_last().last() == steps[1]);
    assert(steps.drop_last().drop_last().last() == steps[2]);
    assert(steps.drop_last().last() == steps[3]);
}

/// A finished drawing stays finished, with its answer.
pub proof fn an_answer_stands(answer: HwError, steps: Seq<bool>)
    ensures
        stage_after(RenderStage::Finished(answer), steps) == RenderStage::Finished(answer),
    decreases steps.len(),
{
    if steps.len() > 0 {
        an_answer_stands(answer, steps.drop_last());
    }
}

/// The answers are numbered from zero in the order in which they are declared, as callers
/// in other languages count them.
pub proof fn answers_are_numbered()
    ensures
        HwError::HwSuccess.number() == 0,
        HwError::HwErrorInvalidArgument.number() == HwError::HwSuccess.number() + 1,
        HwError::HwErrorOutOfMemory.number() == HwError::HwErrorInvalidArgument.number() + 1,
        HwError::HwErrorInternal.number() == HwError::HwErrorOutOfMemory.number() + 1,
        HwError::HwErrorNotFound.number() == HwError::HwErrorInternal.number() + 1,
        HwError::HwErrorFontLoadFailed.number() == HwError::HwErrorNotFound.number() + 1,
        HwError::HwErrorShapingFailed.number() == HwError::HwErrorFontLoadFailed.number() + 1,
        HwError::HwErrorRenderFailed.number() == HwError::HwErrorShapingFailed.number() + 1,
{
}

/// A step that fails ends a drawing at once; one that goes well leads to the next, and the
/// steps come in the order renderer, paper, ink, pixels, room.
pub proof fn a_drawing_goes_on_step_by_step()
    ensures
        RenderStage::CreateRenderer.next(true) is LoadPaper,
        RenderStage::LoadPaper.next(true) is DrawMesh,
        RenderStage::DrawMesh.next(true) is ReadPixels,
        RenderStage::ReadPixels.next(true) is Allocate,
        RenderStage::CreateRenderer.next(false) is Finished,
        RenderStage::LoadPaper.next(false) is Finished,
        RenderStage::DrawMesh.next(false) is Finished,
        RenderStage::ReadPixels.next(false) is Finished,
        RenderStage::Allocate.next(true) is Finished,
        RenderStage::Allocate.next(false) is Finished,
{
}

/// A text that was taken is written with success where it is empty or can be shaped, and
/// answered with a shaping failure, which changes nothing, where it cannot.
pub proof fn feeding_answers<
    F: Fn(Op, u64, u64) -> u64,
    T: Fn(&Vec<Point>, Single, Single) -> Vec<StrokePoint>,
>(
    unit: FloatUnit<F>,
    trace: T,
    bias_per_char: Single,
    before: Page,
    after: Page,
    r: HwError,
)
    requires
        is_fed(unit, trace, bias_per_char, before, after, r),
    ensures
        r is HwSuccess <==> before.text.len() == 0 || placements_of(
            before.font,
            before.text,
        ) is Some,
        r !is HwSuccess ==> r is HwErrorShapingFailed && after == before,
        before.text.len() == 0 ==> after == before,
        after == (Page { mesh: after.mesh, ..before }),
        r is HwSuccess && before.text.len() > 0 ==> ({
            let at = placements_of(before.font, before.text)->0;
            let glyphs = shaped_glyphs(unit, before.font, at);
            let points = trail_along(unit, glyphs, passes_none(), bias_per_char).points;
            &&& after.mesh is Some <==> points.len() > 1
            &&& is_ink(unit, trace, before.base_width, before.wetness, points, after.mesh)
        }),
{
}

/// A session comes of a font exactly where there is one, it is not empty and it can be
/// read, and then its page is new.
pub proof fn a_readable_font_gives_a_session<F: Fn(Op, u64, u64) -> u64>(
    unit: FloatUnit<F>,
    font_data: Option<Seq<u8>>,
    seed: u64,
    dpi_mm: Single,
    now: u64,
    page: Option<Page>,
)
    requires
        is_created(unit, font_data, seed, dpi_mm, now, page),
    ensures
        page is Some <==> font_data is Some && font_data->0.len() > 0 && font_fault_of(
            font_data->0,
        ) is None,
        page matches Some(new) ==> {
            &&& is_new_page(unit, font_data->0, seed, dpi_mm, now, new)
            &&& new.font == font_data->0
            &&& new.text.len() == 0
            &&& new.mesh is None
        },
{
}

} // verus!
