use handwriting::arabic::ArabicPolicy;
use handwriting::ffi::{
    hw_session_create, hw_session_create_from_file, hw_session_feed_text,
    hw_session_render_to_bitmap, hw_session_set_base_width, hw_session_set_ink_color,
    hw_session_set_wetness, text_argument, HwError, RenderStage,
};
use handwriting::number::{double, single, Double, Single};
use handwriting::outline::{Outline, PathEl, Point};
use handwriting::physics::{HandProfile, StrokePoint};
use handwriting::policy::{GlyphProbe, ScriptPolicy};
use handwriting::scripted::{self, Pack};
use handwriting::segment::{Cluster, Script};
use handwriting::session::{glyph_points, Session};
use handwriting::shape::{GlyphSource, HarfBuzzGlyphSource, Placement, ShapeError, ShapedGlyph};
use handwriting::unit::{FloatUnit, Op};

fn f(value: f32) -> Single {
    single(value.to_bits())
}

fn v(value: Single) -> f32 {
    f32::from_bits(value.bits)
}

fn w(value: f64) -> Double {
    double(value.to_bits())
}

fn d(bits: u64) -> f64 {
    f64::from_bits(bits)
}

fn s(bits: u64) -> f32 {
    f32::from_bits(bits as u32)
}

/// IEEE 754 arithmetic on a sheet without noise, whose fibres lie flat.
fn plain(op: Op, a: u64, b: u64) -> u64 {
    match op {
        Op::Add => (s(a) + s(b)).to_bits() as u64,
        Op::Sub => (s(a) - s(b)).to_bits() as u64,
        Op::Mul => (s(a) * s(b)).to_bits() as u64,
        Op::Div => (s(a) / s(b)).to_bits() as u64,
        Op::Sqrt => s(a).sqrt().to_bits() as u64,
        Op::Sin => s(a).sin().to_bits() as u64,
        Op::Cos => s(a).cos().to_bits() as u64,
        Op::Atan => s(a).atan().to_bits() as u64,
        Op::Radians => s(a).to_radians().to_bits() as u64,
        Op::Seconds => (a as f32 / 1e9).to_bits() as u64,
        Op::Nanos => (s(a) * 1e9) as u64,
        Op::AddWide => (d(a) + d(b)).to_bits(),
        Op::SubWide => (d(a) - d(b)).to_bits(),
        Op::MulWide => (d(a) * d(b)).to_bits(),
        Op::DivWide => (d(a) / d(b)).to_bits(),
        Op::SinWide => d(a).sin().to_bits(),
        Op::CosWide => d(a).cos().to_bits(),
        Op::Count => (a as f64).to_bits(),
        Op::Integer => (a as i64 as f64).to_bits(),
        Op::Widen => (s(a) as f64).to_bits(),
        Op::Narrow => (d(a) as f32).to_bits() as u64,
        Op::Noise { .. } => 0,
        Op::FiberAngle => 0,
    }
}

fn unit() -> FloatUnit<impl Fn(Op, u64, u64) -> u64> {
    FloatUnit::new(plain)
}

/// A stroke through the points, as wide as it is told.
fn trace(points: &Vec<Point>, base_width: Single, wetness: Single) -> Vec<StrokePoint> {
    points
        .iter()
        .map(|p| StrokePoint {
            pos_mm_x: f(d(p.x.bits) as f32),
            pos_mm_y: f(d(p.y.bits) as f32),
            pressure: wetness,
            timestamp_secs: f(0.0),
            width_mm: base_width,
            aspect_ratio: f(1.0),
            slant_azimuth_rad: f(0.0),
            slant_altitude_rad: f(0.0),
        })
        .collect()
}

fn u16s(values: &[u16]) -> Vec<u8> {
    values.iter().flat_map(|value| value.to_be_bytes()).collect()
}

/// A font with three glyphs: an empty box for what it does not know, a triangle for
/// `A`, and a wide blank for the space. A thousand units to the em.
fn font() -> Vec<u8> {
    font_of([0x01, 0x01, 0x01])
}

/// The font, with flags for the three points of its `A`: 1 for one on the contour, 0
/// for a control point.
fn font_of(flags: [u8; 3]) -> Vec<u8> {
    let triangle: Vec<u8> = {
        let mut glyph = u16s(&[1, 0, 0, 500, 700, 2, 0]);
        glyph.extend(flags);
        glyph.extend(u16s(&[0, 500, (-249i16) as u16]));
        glyph.extend(u16s(&[0, 0, 700]));
        glyph.push(0);
        glyph
    };
    let loca = u16s(&[0, 0, triangle.len() as u16 / 2, triangle.len() as u16 / 2]);
    file_of([0, 1, 0, 0], &[(b"glyf", triangle), (b"loca", loca)])
}

/// The font, with an `A` of one cubic curve.
fn curved_font() -> Vec<u8> {
    let mut cff = vec![1, 0, 4, 1];
    cff.extend([0, 1, 1, 1, 2, b'A']);
    cff.extend([0, 1, 1, 1, 5, 28, 0, 23, 17]);
    cff.extend([0, 0]);
    cff.extend([0, 0]);
    cff.extend([0, 3, 1, 1, 2, 14, 15]);
    cff.push(14);
    cff.extend([139, 139, 21, 239, 139, 189, 247, 92, 239, 239, 8, 14]);
    cff.push(14);
    file_of(*b"OTTO", &[(b"CFF ", cff)])
}

/// A font file with tables for the outlines of its three glyphs.
fn file_of(version: [u8; 4], outlines: &[(&[u8; 4], Vec<u8>)]) -> Vec<u8> {
    let cmap = {
        let segments = u16s(&[
            4, 40, 0, 6, 4, 1, 2, 0x20, 0x41, 0xFFFF, 0, 0x20, 0x41, 0xFFFF,
            (2i32 - 0x20) as u16,
            (1i32 - 0x41) as u16,
            1,
            0,
            0,
            0,
        ]);
        let mut table = u16s(&[0, 1, 3, 1, 0, 12]);
        table.extend(segments);
        table
    };
    let head = u16s(&[
        1, 0, 1, 0, 0, 0, 0x5F0F, 0x3CF5, 0, 1000, 0, 0, 0, 0, 0, 0, 0, 0, 0, 0, 500, 700, 0, 8, 2,
        0, 0,
    ]);
    let hhea = u16s(&[
        1, 0, 800, (-200i16) as u16, 0, 900, 0, 0, 500, 1, 0, 0, 0, 0, 0, 0, 0, 3,
    ]);
    let hmtx = u16s(&[450, 0, 600, 0, 900, 0]);
    let maxp = u16s(&[0, 0x5000, 3]);
    let mut tables: Vec<(&[u8; 4], Vec<u8>)> = outlines.to_vec();
    tables.push((b"cmap", cmap));
    tables.push((b"head", head));
    tables.push((b"hhea", hhea));
    tables.push((b"hmtx", hmtx));
    tables.push((b"maxp", maxp));
    tables.sort();
    let mut file = version.to_vec();
    file.extend(u16s(&[tables.len() as u16, 64, 2, 48]));
    let mut offset = 12 + 16 * tables.len();
    let mut body: Vec<u8> = Vec::new();
    for (tag, table) in &tables {
        file.extend_from_slice(*tag);
        file.extend(0u32.to_be_bytes());
        file.extend((offset as u32).to_be_bytes());
        file.extend((table.len() as u32).to_be_bytes());
        body.extend(table);
        while body.len() % 4 != 0 {
            body.push(0);
        }
        offset = 12 + 16 * tables.len() + body.len();
    }
    file.extend(body);
    file
}

fn session() -> Session {
    Session::new(&unit(), &font(), 11, f(10.0), 5).expect("the font can be read")
}

fn outline() -> Outline {
    let p = |x: f64, y: f64| Point { x: w(x), y: w(y) };
    Outline {
        elements: vec![
            PathEl::MoveTo(p(10.0, 20.0)),
            PathEl::LineTo(p(30.0, 40.0)),
            PathEl::QuadTo(p(1.0, 1.0), p(50.0, 60.0)),
            PathEl::CurveTo(p(1.0, 1.0), p(2.0, 2.0), p(70.0, 80.0)),
            PathEl::ClosePath,
        ],
    }
}

fn glyph(x_advance: f64, outline: Option<Outline>) -> ShapedGlyph {
    ShapedGlyph {
        glyph_id: 1,
        x_advance: w(x_advance),
        y_advance: w(0.0),
        x_offset: w(0.0),
        y_offset: w(0.0),
        outline,
        advance_font_units: w(x_advance),
    }
}

#[test]
fn a_file_without_a_font_is_refused() {
    match HarfBuzzGlyphSource::from_bytes(b"no font at all, just some text") {
        Err(ShapeError::FontLoad(reason)) => {
            assert_eq!(reason, "Invalid sfnt version 0x6E6F2066");
            let error = ShapeError::FontLoad(reason);
            assert_eq!(
                error.message(),
                "Font loading failed: Invalid sfnt version 0x6E6F2066"
            );
        }
        other => panic!("{other:?}"),
    }
    assert!(HarfBuzzGlyphSource::from_bytes(&[]).is_err());
    assert_eq!(ShapeError::ShapingFailed.message(), "Shaping failed for text");
}

#[test]
fn a_text_is_shaped_from_left_to_right() {
    let source = HarfBuzzGlyphSource::from_bytes(&font()).expect("the font can be read");
    let glyphs = source.shape_text(&unit(), "A A?").expect("the text can be shaped");
    let ids: Vec<u32> = glyphs.iter().map(|g| g.glyph_id).collect();
    assert_eq!(ids, [1, 2, 1, 0]);
    let advances: Vec<f64> = glyphs.iter().map(|g| d(g.x_advance.bits)).collect();
    assert_eq!(advances, [600.0, 900.0, 600.0, 450.0]);
    for g in &glyphs {
        assert_eq!(g.advance_font_units, g.x_advance);
        assert_eq!(d(g.y_advance.bits), 0.0);
        let drawn = source.get_outline(g.glyph_id).map(|outline| outline.elements);
        assert_eq!(g.outline.as_ref().map(|outline| outline.elements.clone()), drawn);
    }
    assert_eq!(glyphs[2].outline.as_ref().map(|o| o.elements.len()), Some(4));
    assert!(source.shape_text(&unit(), "").expect("nothing to shape").is_empty());
}

#[test]
fn a_source_measures_its_glyphs() {
    let source = HarfBuzzGlyphSource::from_bytes(&font()).expect("the font can be read");
    assert!(source.has_vector_outline(1));
    assert!(!source.has_vector_outline(3));
    assert_eq!(d(source.get_advance(&unit(), 2).bits), 900.0);
    assert_eq!(d(source.get_advance(&unit(), 77).bits), 900.0);
    assert!(source.get_bitmap(1).is_none());
    for id in 0..6 {
        assert_eq!(source.get_outline(id).is_some(), source.has_vector_outline(id));
    }
}

#[test]
fn a_source_draws_its_glyphs() {
    let p = |x: f64, y: f64| Point { x: w(x), y: w(y) };
    let source = HarfBuzzGlyphSource::from_bytes(&font()).expect("the font can be read");
    let straight = source.get_outline(1).expect("a triangle");
    assert_eq!(
        straight.elements,
        [
            PathEl::MoveTo(p(0.0, 0.0)),
            PathEl::LineTo(p(500.0, 0.0)),
            PathEl::LineTo(p(251.0, 700.0)),
            PathEl::ClosePath,
        ]
    );
    let source =
        HarfBuzzGlyphSource::from_bytes(&font_of([1, 0, 0])).expect("the font can be read");
    let bent = source.get_outline(1).expect("two arcs");
    assert_eq!(
        bent.elements,
        [
            PathEl::MoveTo(p(0.0, 0.0)),
            PathEl::QuadTo(p(500.0, 0.0), p(375.5, 350.0)),
            PathEl::QuadTo(p(251.0, 700.0), p(0.0, 0.0)),
            PathEl::ClosePath,
        ]
    );
    assert!(source.get_outline(77).is_none());
    let source = HarfBuzzGlyphSource::from_bytes(&curved_font()).expect("the font can be read");
    let curved = source.get_outline(1).expect("a curve");
    assert_eq!(
        curved.elements,
        [
            PathEl::MoveTo(p(0.0, 0.0)),
            PathEl::CurveTo(p(100.0, 0.0), p(150.0, 200.0), p(250.0, 300.0)),
            PathEl::ClosePath,
        ]
    );
}

#[test]
fn placements_become_glyphs() {
    let source = HarfBuzzGlyphSource::from_bytes(&font()).expect("the font can be read");
    let at = vec![Placement {
        glyph_id: 2,
        x_advance: -7,
        y_advance: 3,
        x_offset: 4,
        y_offset: -5,
    }];
    let glyphs = source.describe(&unit(), &at);
    assert_eq!(glyphs.len(), 1);
    assert_eq!(d(glyphs[0].x_advance.bits), -7.0);
    assert_eq!(d(glyphs[0].y_advance.bits), 3.0);
    assert_eq!(d(glyphs[0].x_offset.bits), 4.0);
    assert_eq!(d(glyphs[0].y_offset.bits), -5.0);
    assert_eq!(d(glyphs[0].advance_font_units.bits), 900.0);
}

#[test]
fn the_pen_follows_outlines_at_a_tenth() {
    let glyphs = vec![
        glyph(600.0, Some(outline())),
        glyph(100.0, None),
        glyph(0.0, Some(outline())),
    ];
    let points = glyph_points(&unit(), &glyphs, f(5.0));
    let at: Vec<(f64, f64)> = points.iter().map(|p| (d(p.x.bits), d(p.y.bits))).collect();
    let scale = 0.1f64;
    let start = 0.0 + 600.0 * scale + 5.0 * scale + 100.0 * scale;
    let mut expected = Vec::new();
    for x in [0.0, start] {
        for (px, py) in [(10.0, 20.0), (30.0, 40.0), (50.0, 60.0), (70.0, 80.0)] {
            expected.push((px * scale + x, py * scale + 0.0));
        }
    }
    assert_eq!(at, expected);
}

#[test]
fn a_new_session_is_blank() {
    let mut session = session();
    assert_eq!(session.text(), "");
    assert!(session.clusters().is_empty());
    assert!(session.mesh().is_none());
    assert_eq!(session.ink_color(), [f(0.0), f(0.0), f(0.0), f(1.0)]);
    assert_eq!(v(session.wetness()), 0.7);
    assert_eq!(session.paper_texture().width, 1024);
    assert_eq!(session.pen_mut().profile, HandProfile::default());
    assert!(matches!(
        Session::new(&unit(), &[1, 2, 3], 0, f(1.0), 0),
        Err(ShapeError::FontLoad(_))
    ));
}

#[test]
fn a_session_keeps_its_settings_in_range() {
    let mut session = session();
    session.set_wetness(f(3.0));
    assert_eq!(v(session.wetness()), 1.0);
    session.set_wetness(f(-3.0));
    assert_eq!(v(session.wetness()), 0.0);
    session.set_wetness(f(0.25));
    assert_eq!(v(session.wetness()), 0.25);
    session.set_ink_color(f(0.1), f(0.2), f(0.3), f(0.4));
    assert_eq!(session.ink_color(), [f(0.1), f(0.2), f(0.3), f(0.4)]);

    let points = vec![
        Point { x: w(0.0), y: w(0.0) },
        Point { x: w(4.0), y: w(0.0) },
    ];
    session.set_base_width(f(0.0));
    session.ink_points(&unit(), &points, &trace);
    let mesh = session.mesh().expect("there is ink");
    assert_eq!(v(mesh.vertices[0].pos_mm[1]), 0.25);
    assert_eq!(v(mesh.vertices[0].pressure), 0.25);
    session.set_base_width(f(6.0));
    session.ink_points(&unit(), &points, &trace);
    let mesh = session.mesh().expect("there is ink");
    assert_eq!(v(mesh.vertices[0].pos_mm[1]), 3.0);
    session.ink_points(&unit(), &points[..1].to_vec(), &trace);
    assert!(session.mesh().is_none());
}

#[test]
fn a_new_text_replaces_the_last() {
    let mut session = session();
    session.feed_text("AA", 100);
    let points = vec![Point { x: w(0.0), y: w(0.0) }, Point { x: w(1.0), y: w(1.0) }];
    session.ink_points(&unit(), &points, &trace);
    assert!(session.mesh().is_some());
    session.pen_mut().state.fatigue = f(2.0);

    session.feed_text("A b", 200);
    assert_eq!(session.text(), "A b");
    let texts: Vec<&str> = session.clusters().iter().map(|c| c.text.as_str()).collect();
    assert_eq!(texts, ["A", " ", "b"]);
    assert!(session.mesh().is_none());
    assert_eq!(v(session.pen_mut().state.fatigue), 1.0);
    assert_eq!(session.pen_mut().session_start, 200);
}

#[test]
fn a_text_without_outlines_leaves_no_ink() {
    let mut session = session();
    let points = vec![Point { x: w(0.0), y: w(0.0) }, Point { x: w(1.0), y: w(1.0) }];
    session.ink_points(&unit(), &points, &trace);
    assert!(session.process(&unit(), f(0.0), &trace).is_ok());
    assert!(session.mesh().is_none());
    session.feed_text("  ", 3);
    session.ink_points(&unit(), &points, &trace);
    assert!(session.process(&unit(), f(0.0), &trace).is_ok());
    assert!(session.mesh().is_none());
}

#[test]
fn a_text_with_outlines_leaves_ink() {
    let mut session = session();
    session.feed_text("AA", 3);
    assert!(session.process(&unit(), f(0.0), &trace).is_ok());
    let mesh = session.mesh().expect("there is ink");
    assert_eq!(mesh.vertices.len(), 20);

    let source = HarfBuzzGlyphSource::from_bytes(&font()).expect("the font can be read");
    let glyphs = source.shape_text(&unit(), "AA").expect("the text can be shaped");
    let points = glyph_points(&unit(), &glyphs, f(0.0));
    let at: Vec<(f64, f64)> = points.iter().map(|p| (d(p.x.bits), d(p.y.bits))).collect();
    let scale = 0.1f64;
    let mut expected = Vec::new();
    for x in [0.0, 600.0 * scale] {
        for (px, py) in [(0.0, 0.0), (500.0, 0.0), (251.0, 700.0)] {
            expected.push((px * scale + x, py * scale + 0.0));
        }
    }
    assert_eq!(at, expected);
}

/// A policy that joins everything and draws no glyph as an outline.
fn one_run() -> ArabicPolicy<impl Fn(&[&str]) -> Vec<Cluster>, impl Fn(Option<&Outline>) -> bool> {
    ArabicPolicy::new(
        |pieces: &[&str]| {
            vec![Cluster {
                text: pieces.concat(),
                script: Script::Arabic,
            }]
        },
        |_outline: Option<&Outline>| true,
    )
}

#[test]
fn an_arabic_policy_answers_as_its_functions() {
    let policy = one_run();
    let clusters = policy.cluster_join_rule(&["a", "b"]);
    assert_eq!(clusters.len(), 1);
    assert_eq!(clusters[0].text, "ab");
    let outline = outline();
    assert!(policy.requires_bitmap_fallback(&GlyphProbe { outline: Some(&outline) }));
    assert_eq!(policy.contextual_shaping("xyz").text, "xyz");
    let vectors = ArabicPolicy::new(
        |pieces: &[&str]| {
            pieces
                .iter()
                .map(|p| Cluster { text: p.to_string(), script: Script::Arabic })
                .collect()
        },
        |outline: Option<&Outline>| outline.is_none(),
    );
    assert!(!vectors.requires_bitmap_fallback(&GlyphProbe { outline: Some(&outline) }));
    assert_eq!(vectors.cluster_join_rule(&["a", "b"]).len(), 2);
}

#[test]
fn a_session_finds_its_script() {
    let mut session =
        scripted::Session::new(&unit(), &font(), 1, f(10.0), 0, one_run()).expect("a font");
    assert_eq!(session.current_pack(), Pack::Latin);

    session.feed_text("မင်္ဂလာပါ", 1);
    assert_eq!(session.current_pack(), Pack::Myanmar);
    let texts: Vec<&str> = session.clusters().iter().map(|c| c.text.as_str()).collect();
    assert_eq!(texts, ["မင်္", "ဂ", "လာ", "ပါ"]);

    session.feed_text("سلام", 2);
    assert_eq!(session.current_pack(), Pack::Arabic);
    assert_eq!(session.clusters().len(), 1);
    assert_eq!(session.clusters()[0].text, "سلام");

    session.feed_text("ab", 3);
    assert_eq!(session.current_pack(), Pack::Latin);
    assert_eq!(session.clusters().len(), 2);
    assert_eq!(session.text(), "ab");

    session.feed_in_script("ab", Script::Thaana, 4);
    assert_eq!(session.current_pack(), Pack::Arabic);
    assert_eq!(session.clusters().len(), 1);
    session.feed_in_script("ab", Script::Syriac, 4);
    assert_eq!(session.current_pack(), Pack::Arabic);
}

#[test]
fn rules_pass_glyphs_over() {
    let bare = Outline {
        elements: vec![PathEl::MoveTo(Point { x: w(1.0), y: w(1.0) }), PathEl::ClosePath],
    };
    let glyphs = vec![
        glyph(100.0, Some(bare)),
        glyph(200.0, None),
        glyph(300.0, Some(outline())),
    ];
    let latin = Pack::Latin.glyph_points(&unit(), &one_run(), &glyphs, f(0.0));
    assert_eq!(latin, glyph_points(&unit(), &glyphs, f(0.0)));
    assert_eq!(latin.len(), 5);
    let myanmar = Pack::Myanmar.glyph_points(&unit(), &one_run(), &glyphs, f(0.0));
    assert_eq!(myanmar.len(), 4);
    assert_eq!(d(myanmar[0].x.bits), 10.0 * 0.1 + (100.0 * 0.1 + 200.0 * 0.1));
    let arabic = Pack::Arabic.glyph_points(&unit(), &one_run(), &glyphs, f(0.0));
    assert!(arabic.is_empty());
}

#[test]
fn a_scripted_session_carries_its_settings() {
    let mut session =
        scripted::Session::new(&unit(), &font(), 1, f(10.0), 0, one_run()).expect("a font");
    session.set_wetness(f(9.0));
    session.set_base_width(f(9.0));
    session.set_ink_color(f(0.5), f(0.5), f(0.5), f(0.5));
    assert_eq!(v(session.wetness()), 1.0);
    assert_eq!(session.ink_color(), [f(0.5); 4]);
    assert_eq!(session.paper_texture().height, 1024);
    session.pen_mut().state.fatigue = f(2.0);
    session.feed_text("A", 9);
    assert_eq!(v(session.pen_mut().state.fatigue), 1.0);
    assert!(session.process(&unit(), f(0.0), &trace).is_ok());
    assert_eq!(session.mesh().map(|mesh| mesh.vertices.len()), Some(8));
    session.feed_in_script("A", Script::Arabic, 10);
    assert!(session.process(&unit(), f(0.0), &trace).is_ok());
    assert!(session.mesh().is_none());
    session.feed_in_script("A", Script::Myanmar, 11);
    assert!(session.process(&unit(), f(0.0), &trace).is_ok());
    assert!(session.mesh().is_some());
    assert!(scripted::Session::new(&unit(), &[], 1, f(10.0), 0, one_run()).is_err());
}

#[test]
fn the_interface_refuses_bad_arguments() {
    let unit = unit();
    assert!(hw_session_create(&unit, None, 0, f(1.0), 0).is_none());
    assert!(hw_session_create(&unit, Some(&[]), 0, f(1.0), 0).is_none());
    assert!(hw_session_create(&unit, Some(b"junk"), 0, f(1.0), 0).is_none());
    assert!(hw_session_create_from_file(&unit, None, 0, f(1.0), 0).is_none());
    assert!(hw_session_create_from_file(&unit, Some(b"junk"), 0, f(1.0), 0).is_none());
    assert!(hw_session_create_from_file(&unit, Some(&font()), 0, f(1.0), 0).is_some());

    let mut session = hw_session_create(&unit, Some(&font()), 0, f(1.0), 0).expect("a session");
    assert_eq!(
        hw_session_set_wetness(None, f(0.5)),
        HwError::HwErrorInvalidArgument
    );
    assert_eq!(
        hw_session_set_base_width(None, f(0.5)),
        HwError::HwErrorInvalidArgument
    );
    assert_eq!(
        hw_session_set_ink_color(None, f(0.0), f(0.0), f(0.0), f(0.0)),
        HwError::HwErrorInvalidArgument
    );
    assert_eq!(
        hw_session_set_wetness(Some(&mut session), f(0.5)),
        HwError::HwSuccess
    );
    assert_eq!(v(session.wetness()), 0.5);
    assert_eq!(
        hw_session_set_base_width(Some(&mut session), f(2.0)),
        HwError::HwSuccess
    );
    assert_eq!(
        hw_session_set_ink_color(Some(&mut session), f(0.1), f(0.2), f(0.3), f(0.4)),
        HwError::HwSuccess
    );
    assert_eq!(session.ink_color()[2], f(0.3));

    assert_eq!(
        hw_session_feed_text(&unit, None, Some(b"A"), 0, f(0.0), &trace),
        HwError::HwErrorInvalidArgument
    );
    assert_eq!(
        hw_session_feed_text(&unit, Some(&mut session), None, 0, f(0.0), &trace),
        HwError::HwErrorInvalidArgument
    );
    assert_eq!(
        hw_session_feed_text(&unit, Some(&mut session), Some(&[0xFF, 0x41]), 0, f(0.0), &trace),
        HwError::HwErrorInvalidArgument
    );
    assert_eq!(session.text(), "");
    assert_eq!(
        hw_session_feed_text(&unit, Some(&mut session), Some("Aé".as_bytes()), 0, f(0.0), &trace),
        HwError::HwSuccess
    );
    assert_eq!(session.text(), "Aé");
    assert!(session.mesh().is_some());
    assert_eq!(text_argument(Some("é".as_bytes())), Some("é"));
    assert_eq!(text_argument(Some(&[0xC3])), None);
    assert_eq!(text_argument(None), None);
}

#[test]
fn a_file_gives_what_its_bytes_give() {
    let unit = unit();
    let good = font();
    for data in [&good[..], &good[..8], b"junk", b""] {
        let memory = hw_session_create(&unit, Some(data), 7, f(3.0), 21);
        let file = hw_session_create_from_file(&unit, Some(data), 7, f(3.0), 21);
        match (memory, file) {
            (Some(mut a), Some(mut b)) => {
                assert!(data == &good[..]);
                assert_eq!(a.text(), b.text());
                assert_eq!(a.ink_color(), b.ink_color());
                assert_eq!(a.wetness(), b.wetness());
                assert_eq!(a.pen_mut().session_start, b.pen_mut().session_start);
                assert!(a.paper_texture().diffuse_rgba == b.paper_texture().diffuse_rgba);
                assert!(a.paper_texture().normal_rgba == b.paper_texture().normal_rgba);
            }
            (None, None) => assert!(data != &good[..]),
            _ => panic!("one session is missing"),
        }
    }
}

#[test]
fn a_drawing_starts_only_with_ink() {
    let unit = unit();
    let mut session = hw_session_create(&unit, Some(&font()), 0, f(1.0), 0).expect("a session");
    let refused = RenderStage::Finished(HwError::HwErrorInvalidArgument);
    assert_eq!(hw_session_render_to_bitmap(None, 1, 1, true, true), refused);
    assert_eq!(hw_session_render_to_bitmap(Some(&session), 0, 1, true, true), refused);
    assert_eq!(hw_session_render_to_bitmap(Some(&session), 1, 0, true, true), refused);
    assert_eq!(hw_session_render_to_bitmap(Some(&session), 1, 1, false, true), refused);
    assert_eq!(hw_session_render_to_bitmap(Some(&session), 1, 1, true, false), refused);
    assert_eq!(
        hw_session_render_to_bitmap(Some(&session), 1, 1, true, true),
        RenderStage::Finished(HwError::HwErrorNotFound)
    );
    let points = vec![Point { x: w(0.0), y: w(0.0) }, Point { x: w(1.0), y: w(1.0) }];
    session.ink_points(&unit, &points, &trace);
    assert_eq!(
        hw_session_render_to_bitmap(Some(&session), 1, 1, true, true),
        RenderStage::CreateRenderer
    );
}

#[test]
fn a_drawing_answers_for_its_first_failure() {
    for failing in 0..6 {
        let mut stage = RenderStage::CreateRenderer;
        for step in 0..5 {
            stage = stage.advance(step != failing);
        }
        let answer = match failing {
            0..=3 => HwError::HwErrorRenderFailed,
            4 => HwError::HwErrorOutOfMemory,
            _ => HwError::HwSuccess,
        };
        assert_eq!(stage, RenderStage::Finished(answer));
        assert_eq!(stage.advance(false), stage);
    }
}

#[test]
fn answers_have_their_numbers() {
    let answers = [
        HwError::HwSuccess,
        HwError::HwErrorInvalidArgument,
        HwError::HwErrorOutOfMemory,
        HwError::HwErrorInternal,
        HwError::HwErrorNotFound,
        HwError::HwErrorFontLoadFailed,
        HwError::HwErrorShapingFailed,
        HwError::HwErrorRenderFailed,
    ];
    for (number, answer) in answers.iter().enumerate() {
        assert_eq!(answer.code() as usize, number);
    }
}

#[test]
fn what_is_written_stays() {
    let glyphs = vec![
        glyph(600.0, Some(outline())),
        glyph(-40.0, Some(outline())),
        glyph(10.0, None),
        glyph(30.0, Some(outline())),
    ];
    let all = glyph_points(&unit(), &glyphs, f(1.5));
    for count in 0..=glyphs.len() {
        let some = glyph_points(&unit(), &glyphs[..count].to_vec(), f(1.5));
        assert_eq!(all[..some.len()], some[..]);
    }
}

#[test]
fn the_same_points_leave_the_same_ink() {
    let mut one = session();
    let mut two = session();
    let points = glyph_points(&unit(), &vec![glyph(5.0, Some(outline()))], f(0.0));
    one.ink_points(&unit(), &points, &trace);
    two.ink_points(&unit(), &points, &trace);
    let (a, b) = (one.mesh().expect("ink"), two.mesh().expect("ink"));
    assert_eq!(a.vertices, b.vertices);
    assert_eq!(a.indices, b.indices);
    assert_eq!(a.vertices.len(), 12);
}
