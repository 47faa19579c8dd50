//! The Arabic script and its kin, whose rules the caller brings: one function that
//! joins clusters and one that judges glyphs.

use crate::outline::{Outline, PathEl};
use crate::policy::{str_contents, GlyphProbe, ScriptPolicy, ShapedRun};
use crate::segment::{cluster_views, Cluster, ClusterView};
use vstd::prelude::*;

verus! {

/// Whether a function joins all pieces, the same pieces always in the same way.
pub open spec fn joins_once<J: Fn(&[&str]) -> Vec<Cluster>>(join: J) -> bool {
    &&& forall|pieces: &[&str]| call_requires(join, (pieces,))
    &&& forall|a: &[&str], b: &[&str], r: Vec<Cluster>, s: Vec<Cluster>|
        call_ensures(join, (a,), r) && call_ensures(join, (b,), s) && str_contents(a@)
            == str_contents(b@) ==> cluster_views(r@) == cluster_views(s@)
}

/// The steps of a borrowed outline, if there is one.
pub open spec fn steps_of(outline: Option<&Outline>) -> Option<Seq<PathEl>> {
    match outline {
        Some(outline) => Some(outline@),
        None => None,
    }
}

/// Whether a function judges all outlines, the same steps always in the same way.
pub open spec fn judges_once<B: Fn(Option<&Outline>) -> bool>(judge: B) -> bool {
    &&& forall|outline: Option<&Outline>| call_requires(judge, (outline,))
    &&& forall|a: Option<&Outline>, b: Option<&Outline>, r: bool, s: bool|
        call_ensures(judge, (a,), r) && call_ensures(judge, (b,), s) && steps_of(a) == steps_of(b)
            ==> r == s
}

/// The policy of the Arabic script, by functions of the caller.
pub struct ArabicPolicy<J: Fn(&[&str]) -> Vec<Cluster>, B: Fn(Option<&Outline>) -> bool> {
    join: J,
    judge: B,
}

impl<J: Fn(&[&str]) -> Vec<Cluster>, B: Fn(Option<&Outline>) -> bool> ArabicPolicy<J, B> {
    #[verifier::type_invariant]
    spec fn answers_once(self) -> bool {
        joins_once(self.join) && judges_once(self.judge)
    }

    /// What the caller's function joins pieces into.
    pub closed spec fn answer(self, pieces: Seq<Seq<char>>) -> Seq<ClusterView> {
        let (given, r) = choose|given: &[&str], r: Vec<Cluster>|
            str_contents(given@) == pieces && call_ensures(self.join, (given,), r);
        cluster_views(r@)
    }

    /// Whether the caller's function wants a bitmap.
    pub closed spec fn verdict(self, outline: Option<Seq<PathEl>>) -> bool {
        exists|given: Option<&Outline>|
            steps_of(given) == outline && call_ensures(self.judge, (given,), true)
    }

    /// A policy that joins as `join` does and wants a bitmap where `judge` does.
    pub fn new(join: J, judge: B) -> (r: Self)
        requires
            joins_once(join),
            judges_once(judge),
        ensures
            forall|given: &[&str], clusters: Vec<Cluster>|
                #![trigger call_ensures(join, (given,), clusters)]
                call_ensures(join, (given,), clusters) ==> cluster_views(clusters@) == r.answer(
                    str_contents(given@),
                ),
            forall|given: Option<&Outline>, bitmap: bool|
                #![trigger call_ensures(judge, (given,), bitmap)]
                call_ensures(judge, (given,), bitmap) ==> bitmap == r.verdict(steps_of(given)),
    {
        ArabicPolicy { join, judge }
    }
}

impl<J: Fn(&[&str]) -> Vec<Cluster>, B: Fn(Option<&Outline>) -> bool> ScriptPolicy for ArabicPolicy<
    J,
    B,
> {
    open spec fn joined(&self, pieces: Seq<Seq<char>>) -> Seq<ClusterView> {
        self.answer(pieces)
    }

    open spec fn needs_bitmap(&self, outline: Option<Seq<PathEl>>) -> bool {
        self.verdict(outline)
    }

    open spec fn prepared(&self, run: Seq<char>) -> Seq<char> {
        run
    }

    fn cluster_join_rule(&self, clusters: &[&str]) -> (r: Vec<Cluster>) {
        proof {
            use_type_invariant(self);
        }
        (self.join)(clusters)
    }

    fn requires_bitmap_fallback(&self, glyph: &GlyphProbe) -> (r: bool) {
        proof {
            use_type_invariant(self);
        }
        (self.judge)(glyph.vector_outline())
    }

    fn contextual_shaping(&self, run: &str) -> (r: ShapedRun) {
        ShapedRun::new(run)
    }
}

} // verus!
