//! Ink meshes: stroke points tessellated into a ribbon of quads.

use crate::constants::{HALF, MILLIONTH, ONE, ZERO};
use crate::number::{single, Single};
use crate::physics::StrokePoint;
use crate::unit::{FloatUnit, Op};
use crate::words::{is_image, words_as_bytes};
use vstd::prelude::*;

verus! {

/// A vertex of the ink: position, pressure and time. Four words.
#[derive(Clone, Copy, Debug, PartialEq)]
pub struct InkVertex {
    /// Position in millimetres.
    pub pos_mm: [Single; 2],
    /// Pressure from 0 to 1.
    pub pressure: Single,
    /// Seconds since the session started.
    pub timestamp_secs: Single,
}

/// A mesh of ink. Three indices make a triangle, six a segment of the ribbon.
#[derive(Clone, Debug)]
pub struct InkMesh {
    pub vertices: Vec<InkVertex>,
    pub indices: Vec<u32>,
}

/// The words of a vertex, in the order of its fields.
pub open spec fn vertex_word(v: InkVertex, k: int) -> u32 {
    if k == 0 {
        v.pos_mm[0].bits
    } else if k == 1 {
        v.pos_mm[1].bits
    } else if k == 2 {
        v.pressure.bits
    } else {
        v.timestamp_secs.bits
    }
}

/// The words of vertices, one vertex after the other.
pub open spec fn vertex_words(vertices: Seq<InkVertex>) -> Seq<u32> {
    Seq::new(4 * vertices.len(), |k: int| vertex_word(vertices[k / 4], k % 4))
}

impl InkMesh {
    /// How many segments the ribbon has. A segment is drawn with six indices.
    pub fn triangle_count(&self) -> (r: usize)
        ensures
            r == self.indices@.len() / 6,
            6 * r <= self.indices@.len() < 6 * r + 6,
    {
        self.indices.len() / 6
    }

    /// Whether there is nothing to draw.
    pub fn is_empty(&self) -> (r: bool)
        ensures
            r == (self.vertices@.len() == 0 || self.indices@.len() == 0),
            !r <==> self.vertices@.len() > 0 && self.indices@.len() > 0,
    {
        self.vertices.is_empty() || self.indices.is_empty()
    }

    /// The bytes of the vertices, as a vertex buffer takes them.
    pub fn vertex_bytes(&self) -> (r: Vec<u8>)
        ensures
            is_image(vertex_words(self.vertices@), r@),
    {
        let mut words: Vec<u32> = Vec::new();
        let mut i: usize = 0;
        while i < self.vertices.len()
            invariant
                i <= self.vertices@.len(),
                words@ == vertex_words(self.vertices@.take(i as int)),
            decreases self.vertices@.len() - i,
        {
            let v = self.vertices[i];
            let ghost before = words@;
            words.push(v.pos_mm[0].bits);
            words.push(v.pos_mm[1].bits);
            words.push(v.pressure.bits);
            words.push(v.timestamp_secs.bits);
            assert(words@ == vertex_words(self.vertices@.take(i + 1)));
            i += 1;
        }
        assert(self.vertices@.take(i as int) == self.vertices@);
        vstd::slice::slice_to_vec(words_as_bytes(words.as_slice()))
    }

    /// The bytes of the indices, as an index buffer takes them.
    pub fn index_bytes(&self) -> (r: &[u8])
        ensures
            is_image(self.indices@, r@),
    {
        words_as_bytes(self.indices.as_slice())
    }
}

/// A vector across the way from one point to another.
pub open spec fn across<F: Fn(Op, u64, u64) -> u64>(
    unit: FloatUnit<F>,
    a: StrokePoint,
    b: StrokePoint,
) -> [Single; 2] {
    [unit.minus(b.pos_mm_y, a.pos_mm_y).negated(), unit.minus(b.pos_mm_x, a.pos_mm_x)]
}

/// The direction in which the ribbon widens at a point: across the first way at
/// the first point, across the last way at the last point, halfway between the
/// two ways in between.
pub open spec fn widening<F: Fn(Op, u64, u64) -> u64>(
    unit: FloatUnit<F>,
    points: Seq<StrokePoint>,
    i: int,
) -> [Single; 2] {
    if i == 0 {
        across(unit, points[0], points[1])
    } else if i == points.len() - 1 {
        across(unit, points[i - 1], points[i])
    } else {
        let before = across(unit, points[i - 1], points[i]);
        let after = across(unit, points[i], points[i + 1]);
        [
            unit.times(unit.plus(before[0], after[0]), single(HALF)),
            unit.times(unit.plus(before[1], after[1]), single(HALF)),
        ]
    }
}

/// A vector brought to unit length; straight up where it is too short to have a
/// direction.
pub open spec fn normalized<F: Fn(Op, u64, u64) -> u64>(
    unit: FloatUnit<F>,
    v: [Single; 2],
) -> [Single; 2] {
    let length = unit.root(unit.plus(unit.times(v[0], v[0]), unit.times(v[1], v[1])));
    if single(MILLIONTH).precedes(length) {
        [unit.over(v[0], length), unit.over(v[1], length)]
    } else {
        [single(ZERO), single(ONE)]
    }
}

/// The normal of the ribbon at a point.
pub open spec fn normal_at<F: Fn(Op, u64, u64) -> u64>(
    unit: FloatUnit<F>,
    points: Seq<StrokePoint>,
    i: int,
) -> [Single; 2] {
    normalized(unit, widening(unit, points, i))
}

/// The two edges of the ribbon at a point: half the ink width to either side
/// along the normal, which the aspect ratio stretches sideways.
pub open spec fn edges<F: Fn(Op, u64, u64) -> u64>(
    unit: FloatUnit<F>,
    point: StrokePoint,
    normal: [Single; 2],
) -> ([Single; 2], [Single; 2]) {
    let half = unit.times(point.width_mm, single(HALF));
    let dx = unit.times(unit.times(normal[0], point.aspect_ratio), half);
    let dy = unit.times(normal[1], half);
    (
        [unit.plus(point.pos_mm_x, dx), unit.plus(point.pos_mm_y, dy)],
        [unit.minus(point.pos_mm_x, dx), unit.minus(point.pos_mm_y, dy)],
    )
}

/// The vertex of an edge of the ribbon at a point.
pub open spec fn edge_vertex<F: Fn(Op, u64, u64) -> u64>(
    unit: FloatUnit<F>,
    points: Seq<StrokePoint>,
    i: int,
    right: bool,
) -> InkVertex {
    let (l, r) = edges(unit, points[i], normal_at(unit, points, i));
    InkVertex {
        pos_mm: if right {
            r
        } else {
            l
        },
        pressure: points[i].pressure,
        timestamp_secs: points[i].timestamp_secs,
    }
}

/// The vertices of the ribbon: four for each segment, left and right at its start,
/// left and right at its end.
pub open spec fn ribbon_vertices<F: Fn(Op, u64, u64) -> u64>(
    unit: FloatUnit<F>,
    points: Seq<StrokePoint>,
    segments: nat,
) -> Seq<InkVertex> {
    Seq::new(
        4 * segments,
        |k: int| edge_vertex(unit, points, k / 4 + (k % 4) / 2, k % 2 == 1),
    )
}

/// The corner of a quad that its index at a place names: two triangles that share
/// the way from the right start to the left end.
pub open spec fn quad_corner(place: int) -> int {
    if place == 0 {
        0
    } else if place == 1 || place == 3 {
        1
    } else if place == 4 {
        3
    } else {
        2
    }
}

/// The indices of the ribbon: six for each segment, counted from the first vertex
/// of the segment. Past the range of an index the count starts again.
pub open spec fn ribbon_indices(segments: nat) -> Seq<u32> {
    Seq::new(
        6 * segments,
        |k: int| ((4 * (k / 6)) % 0x1_0000_0000 + quad_corner(k % 6)) as u32,
    )
}

/// Whether a mesh is the ribbon along points. One point makes no ribbon.
pub open spec fn is_ribbon<F: Fn(Op, u64, u64) -> u64>(
    unit: FloatUnit<F>,
    points: Seq<StrokePoint>,
    mesh: InkMesh,
) -> bool {
    let segments = if points.len() < 2 {
        0
    } else {
        (points.len() - 1) as nat
    };
    &&& mesh.vertices@ == ribbon_vertices(unit, points, segments)
    &&& mesh.indices@ == ribbon_indices(segments)
}

fn stroke_normal<F: Fn(Op, u64, u64) -> u64>(
    unit: &FloatUnit<F>,
    a: &StrokePoint,
    b: &StrokePoint,
) -> (r: [Single; 2])
    ensures
        r == across(*unit, *a, *b),
{
    let dx = unit.sub(b.pos_mm_x, a.pos_mm_x);
    let dy = unit.sub(b.pos_mm_y, a.pos_mm_y);
    [dy.neg(), dx]
}

fn ribbon_normal<F: Fn(Op, u64, u64) -> u64>(
    unit: &FloatUnit<F>,
    points: &[StrokePoint],
    i: usize,
) -> (r: [Single; 2])
    requires
        points@.len() >= 2,
        i < points@.len(),
    ensures
        r == normal_at(*unit, points@, i as int),
{
    let v = if i == 0 {
        stroke_normal(unit, &points[0], &points[1])
    } else if i == points.len() - 1 {
        stroke_normal(unit, &points[i - 1], &points[i])
    } else {
        let before = stroke_normal(unit, &points[i - 1], &points[i]);
        let after = stroke_normal(unit, &points[i], &points[i + 1]);
        [
            unit.mul(unit.add(before[0], after[0]), single(HALF)),
            unit.mul(unit.add(before[1], after[1]), single(HALF)),
        ]
    };
    assert(v == widening(*unit, points@, i as int));
    let length = unit.sqrt(unit.add(unit.mul(v[0], v[0]), unit.mul(v[1], v[1])));
    if single(MILLIONTH).less(length) {
        [unit.div(v[0], length), unit.div(v[1], length)]
    } else {
        [single(ZERO), single(ONE)]
    }
}

fn push_edges<F: Fn(Op, u64, u64) -> u64>(
    unit: &FloatUnit<F>,
    points: &[StrokePoint],
    i: usize,
    normal: [Single; 2],
    vertices: &mut Vec<InkVertex>,
)
    requires
        i < points@.len(),
        normal == normal_at(*unit, points@, i as int),
    ensures
        final(vertices)@ == old(vertices)@.push(
            edge_vertex(*unit, points@, i as int, false),
        ).push(edge_vertex(*unit, points@, i as int, true)),
{
    let point = points[i];
    let half = unit.mul(point.width_mm, single(HALF));
    let dx = unit.mul(unit.mul(normal[0], point.aspect_ratio), half);
    let dy = unit.mul(normal[1], half);
    vertices.push(
        InkVertex {
            pos_mm: [unit.add(point.pos_mm_x, dx), unit.add(point.pos_mm_y, dy)],
            pressure: point.pressure,
            timestamp_secs: point.timestamp_secs,
        },
    );
    vertices.push(
        InkVertex {
            pos_mm: [unit.sub(point.pos_mm_x, dx), unit.sub(point.pos_mm_y, dy)],
            pressure: point.pressure,
            timestamp_secs: point.timestamp_secs,
        },
    );
}

/// The first index of the next segment, for as many vertices as there are.
fn next_base(count: usize, Ghost(segments): Ghost<int>) -> (r: u32)
    requires
        count == 4 * segments,
        segments >= 0,
    ensures
        r == (4 * segments) % 0x1_0000_0000,
        r <= 0xFFFF_FFFC,
{
    let wide: u64 = count as u64;
    assert(wide as u32 == wide % 0x1_0000_0000) by (bit_vector);
    assert((4 * segments) % 0x1_0000_0000 <= 0xFFFF_FFFC);
    #[verifier::truncate]
    (wide as u32)
}

fn push_quad(base: u32, indices: &mut Vec<u32>)
    requires
        base <= 0xFFFF_FFFC,
    ensures
        final(indices)@ == old(indices)@ + seq![
            base,
            (base + 1) as u32,
            (base + 2) as u32,
            (base + 1) as u32,
            (base + 3) as u32,
            (base + 2) as u32,
        ],
{
    indices.push(base);
    indices.push(base + 1);
    indices.push(base + 2);
    indices.push(base + 1);
    indices.push(base + 3);
    indices.push(base + 2);
    assert(indices@ == old(indices)@ + seq![
        base,
        (base + 1) as u32,
        (base + 2) as u32,
        (base + 1) as u32,
        (base + 3) as u32,
        (base + 2) as u32,
    ]);
}

/// Lays the ribbon along the points into two empty buffers.
fn lay_ribbon<F: Fn(Op, u64, u64) -> u64>(
    unit: &FloatUnit<F>,
    points: &[StrokePoint],
    vertices: &mut Vec<InkVertex>,
    indices: &mut Vec<u32>,
)
    requires
        points@.len() >= 2,
        old(vertices)@.len() == 0,
        old(indices)@.len() == 0,
    ensures
        final(vertices)@ == ribbon_vertices(*unit, points@, (points@.len() - 1) as nat),
        final(indices)@ == ribbon_indices((points@.len() - 1) as nat),
{
    let n: usize = points.len();
    let mut normals: Vec<[Single; 2]> = Vec::with_capacity(n);
    let mut i: usize = 0;
    while i < n
        invariant
            n == points@.len(),
            n >= 2,
            i <= n,
            normals@.len() == i,
            forall|j: int| 0 <= j < i ==> #[trigger] normals@[j] == normal_at(*unit, points@, j),
        decreases n - i,
    {
        normals.push(ribbon_normal(unit, points, i));
        i += 1;
    }
    let mut k: usize = 0;
    while k < n - 1
        invariant
            n == points@.len(),
            n >= 2,
            k <= n - 1,
            normals@.len() == n,
            forall|j: int| 0 <= j < n ==> #[trigger] normals@[j] == normal_at(*unit, points@, j),
            vertices@ == ribbon_vertices(*unit, points@, k as nat),
            indices@ == ribbon_indices(k as nat),
        decreases n - 1 - k,
    {
        let base = next_base(vertices.len(), Ghost(k as int));
        push_edges(unit, points, k, normals[k], vertices);
        push_edges(unit, points, k + 1, normals[k + 1], vertices);
        push_quad(base, indices);
        assert(vertices@ == ribbon_vertices(*unit, points@, (k + 1) as nat));
        assert(indices@ == ribbon_indices((k + 1) as nat));
        k += 1;
    }
}

/// The mesh of the ribbon along the points of a stroke. The texture scale has no
/// part in it: the vertices carry no texture coordinates.
pub fn build_ink_mesh<F: Fn(Op, u64, u64) -> u64>(
    unit: &FloatUnit<F>,
    points: &[StrokePoint],
    paper_texture_scale: Single,
) -> (r: InkMesh)
    ensures
        is_ribbon(*unit, points@, r),
{
    let mut vertices: Vec<InkVertex> = Vec::new();
    let mut indices: Vec<u32> = Vec::new();
    if points.len() >= 2 {
        lay_ribbon(unit, points, &mut vertices, &mut indices);
    } else {
        assert(vertices@ == ribbon_vertices(*unit, points@, 0));
        assert(indices@ == ribbon_indices(0));
    }
    InkMesh { vertices, indices }
}

/// Collects the points of a stroke and builds its mesh on demand, in buffers that
/// it uses again.
pub struct StrokeMeshBuilder {
    points: Vec<StrokePoint>,
    vertex_scratch: Vec<InkVertex>,
    index_scratch: Vec<u32>,
}

impl StrokeMeshBuilder {
    /// The points that were collected.
    pub closed spec fn points(self) -> Seq<StrokePoint> {
        self.points@
    }

    /// A builder with room for so many points.
    pub fn with_capacity(cap: usize) -> (r: StrokeMeshBuilder)
        requires
            cap * 64 <= isize::MAX,
        ensures
            r.points() == Seq::<StrokePoint>::empty(),
    {
        StrokeMeshBuilder {
            points: Vec::with_capacity(cap),
            vertex_scratch: Vec::with_capacity(cap * 4),
            index_scratch: Vec::with_capacity(cap * 6),
        }
    }

    /// Adds a point.
    pub fn push(&mut self, point: StrokePoint)
        ensures
            final(self).points() == old(self).points().push(point),
    {
        self.points.push(point);
    }

    /// Forgets the points, for a new stroke.
    pub fn clear(&mut self)
        ensures
            final(self).points() == Seq::<StrokePoint>::empty(),
    {
        self.points.clear();
    }

    /// The mesh of the points that were collected, which stay.
    pub fn build<F: Fn(Op, u64, u64) -> u64>(
        &mut self,
        unit: &FloatUnit<F>,
        paper_texture_scale: Single,
    ) -> (r: InkMesh)
        ensures
            is_ribbon(*unit, old(self).points(), r),
            final(self).points() == old(self).points(),
    {
        self.vertex_scratch.clear();
        self.index_scratch.clear();
        if self.points.len() >= 2 {
            lay_ribbon(
                unit,
                self.points.as_slice(),
                &mut self.vertex_scratch,
                &mut self.index_scratch,
            );
        } else {
            assert(self.vertex_scratch@ == ribbon_vertices(*unit, self.points@, 0));
            assert(self.index_scratch@ == ribbon_indices(0));
        }
        let vertices = self.vertex_scratch.clone();
        let indices = self.index_scratch.clone();
        assert(vertices@ == self.vertex_scratch@);
        assert(indices@ == self.index_scratch@);
        InkMesh { vertices, indices }
    }
}

/// A ribbon along `n` points has `n - 1` segments of four vertices and six indices;
/// fewer than two points make an empty mesh.
pub proof fn a_ribbon_counts_its_segments<F: Fn(Op, u64, u64) -> u64>(
    unit: FloatUnit<F>,
    points: Seq<StrokePoint>,
    mesh: InkMesh,
)
    requires
        is_ribbon(unit, points, mesh),
    ensures
        points.len() < 2 ==> mesh.vertices@.len() == 0 && mesh.indices@.len() == 0,
        points.len() >= 2 ==> {
            &&& mesh.vertices@.len() == 4 * (points.len() - 1)
            &&& mesh.indices@.len() == 6 * (points.len() - 1)
            &&& mesh.indices@.len() / 6 == points.len() - 1
        },
{
}

/// Every index of a ribbon names one of its vertices, as long as there are no more
/// vertices than an index can count.
pub proof fn a_ribbon_names_its_vertices<F: Fn(Op, u64, u64) -> u64>(
    unit: FloatUnit<F>,
    points: Seq<StrokePoint>,
    mesh: InkMesh,
)
    requires
        is_ribbon(unit, points, mesh),
        mesh.vertices@.len() <= 0x1_0000_0000,
    ensures
        forall|k: int| 0 <= k < mesh.indices@.len() ==> #[trigger] mesh.indices@[k]
            < mesh.vertices@.len(),
{
}

/// Neighbouring segments of a ribbon meet: the end of a segment has the vertices of
/// the start of the next.
pub proof fn segments_meet<F: Fn(Op, u64, u64) -> u64>(
    unit: FloatUnit<F>,
    points: Seq<StrokePoint>,
    mesh: InkMesh,
    segment: int,
)
    requires
        is_ribbon(unit, points, mesh),
        0 <= segment,
        segment + 2 < points.len(),
    ensures
        mesh.vertices@[4 * segment + 2] == mesh.vertices@[4 * (segment + 1)],
        mesh.vertices@[4 * segment + 3] == mesh.vertices@[4 * (segment + 1) + 1],
{
}

/// A mesh depends on nothing but the points: two meshes along the same points are
/// the same, whichever way they were built.
pub proof fn a_ribbon_is_unique<F: Fn(Op, u64, u64) -> u64>(
    unit: FloatUnit<F>,
    points: Seq<StrokePoint>,
    a: InkMesh,
    b: InkMesh,
)
    requires
        is_ribbon(unit, points, a),
        is_ribbon(unit, points, b),
    ensures
        a.vertices@ == b.vertices@,
        a.indices@ == b.indices@,
{
}

} // verus!
