//! What differs from script to script.

use crate::outline::{Outline, PathEl};
use crate::segment::{cluster_views, Cluster, ClusterView};
use vstd::prelude::*;

verus! {

/// The characters of several borrowed strings.
pub open spec fn str_contents(strings: Seq<&str>) -> Seq<Seq<char>> {
    Seq::new(strings.len(), |i: int| strings[i]@)
}

/// What a policy is shown of a glyph.
pub struct GlyphProbe<'a> {
    pub outline: Option<&'a Outline>,
}

impl<'a> GlyphProbe<'a> {
    /// The steps of the outline, if the glyph has one.
    pub open spec fn steps(self) -> Option<Seq<PathEl>> {
        match self.outline {
            Some(outline) => Some(outline@),
            None => None,
        }
    }

    /// The outline, if the glyph has one.
    pub fn vector_outline(&self) -> (r: Option<&'a Outline>)
        ensures
            r == self.outline,
    {
        self.outline
    }
}

/// A run of text that is ready to be shaped.
#[derive(Clone, Debug)]
pub struct ShapedRun {
    pub text: String,
}

impl ShapedRun {
    /// A run of a text.
    pub fn new(run: &str) -> (r: ShapedRun)
        ensures
            r.text@ == run@,
    {
        ShapedRun { text: run.to_string() }
    }
}

/// The rules of a script.
pub trait ScriptPolicy {
    /// The clusters that pieces of text are joined into.
    spec fn joined(&self, pieces: Seq<Seq<char>>) -> Seq<ClusterView>;

    /// Whether a glyph with such an outline has to be drawn as a bitmap.
    spec fn needs_bitmap(&self, outline: Option<Seq<PathEl>>) -> bool;

    /// The text that a run is shaped as.
    spec fn prepared(&self, run: Seq<char>) -> Seq<char>;

    /// Joins pieces of text into clusters.
    fn cluster_join_rule(&self, clusters: &[&str]) -> (r: Vec<Cluster>)
        ensures
            cluster_views(r@) == self.joined(str_contents(clusters@)),
    ;

    /// Whether a glyph has to be drawn as a bitmap.
    fn requires_bitmap_fallback(&self, glyph: &GlyphProbe) -> (r: bool)
        ensures
            r == self.needs_bitmap(glyph.steps()),
    ;

    /// Makes a run ready to be shaped.
    fn contextual_shaping(&self, run: &str) -> (r: ShapedRun)
        ensures
            r.text@ == self.prepared(run@),
    ;
}

} // verus!
