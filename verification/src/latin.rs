//! The Latin script, and every script without rules of its own: each piece of text
//! is a cluster.

use crate::outline::PathEl;
use crate::policy::{str_contents, GlyphProbe, ScriptPolicy, ShapedRun};
use crate::segment::{
    cluster_texts, cluster_views, clusters_have_the_script_of_their_first_character,
    concatenation, gather, gathered, script_of, Cluster, ClusterView,
};
use vstd::prelude::*;

verus! {

/// The policy of the Latin script.
pub struct LatinPolicy;

/// Each piece as a cluster of its own.
pub open spec fn separate(pieces: Seq<Seq<char>>) -> Seq<ClusterView> {
    Seq::new(pieces.len(), |i: int| ClusterView { text: pieces[i], script: script_of(pieces[i]) })
}

impl ScriptPolicy for LatinPolicy {
    open spec fn joined(&self, pieces: Seq<Seq<char>>) -> Seq<ClusterView> {
        separate(pieces)
    }

    open spec fn needs_bitmap(&self, outline: Option<Seq<PathEl>>) -> bool {
        outline is None
    }

    open spec fn prepared(&self, run: Seq<char>) -> Seq<char> {
        run
    }

    fn cluster_join_rule(&self, clusters: &[&str]) -> (r: Vec<Cluster>) {
        let ghost all = str_contents(clusters@);
        let ghost never = |before: ClusterView, piece: Seq<char>| false;
        let mut result: Vec<Cluster> = Vec::new();
        let mut i: usize = 0;
        assert(cluster_views(result@) == gathered(all.take(0), never));
        while i < clusters.len()
            invariant
                i <= clusters@.len(),
                all == str_contents(clusters@),
                never == |before: ClusterView, piece: Seq<char>| false,
                cluster_views(result@) == gathered(all.take(i as int), never),
            decreases clusters@.len() - i,
        {
            let piece = clusters[i];
            gather(&mut result, piece, false, Ghost(all.take(i as int)), Ghost(never));
            assert(all.take(i as int).push(piece@) == all.take(i + 1));
            i += 1;
        }
        assert(all.take(i as int) == all);
        proof {
            joining_nothing_separates(all);
        }
        result
    }

    fn requires_bitmap_fallback(&self, glyph: &GlyphProbe) -> (r: bool) {
        glyph.vector_outline().is_none()
    }

    fn contextual_shaping(&self, run: &str) -> (r: ShapedRun) {
        ShapedRun::new(run)
    }
}

impl Default for LatinPolicy {
    fn default() -> (r: Self)
        ensures
            r == LatinPolicy,
    {
        LatinPolicy
    }
}

/// Pieces of which none joins the one before are gathered one by one.
proof fn joining_nothing_separates(pieces: Seq<Seq<char>>)
    ensures
        gathered(pieces, |before: ClusterView, piece: Seq<char>| false) == separate(pieces),
    decreases pieces.len(),
{
    if pieces.len() > 0 {
        joining_nothing_separates(pieces.drop_last());
        assert(separate(pieces).drop_last() == separate(pieces.drop_last()));
        assert(separate(pieces) == separate(pieces.drop_last()).push(
            ClusterView { text: pieces.last(), script: script_of(pieces.last()) },
        ));
    }
}

/// The policy loses no text: its clusters, put together, are the pieces put
/// together, and there are as many.
pub proof fn latin_keeps_the_text(policy: LatinPolicy, pieces: Seq<Seq<char>>)
    ensures
        concatenation(cluster_texts(policy.joined(pieces))) == concatenation(pieces),
        policy.joined(pieces).len() == pieces.len(),
{
    assert(cluster_texts(policy.joined(pieces)) == pieces);
}

/// The policy leaves clusters as they are: where no piece is empty, clusters that
/// were gathered from the pieces come out of it unchanged.
pub proof fn latin_leaves_clusters(
    policy: LatinPolicy,
    pieces: Seq<Seq<char>>,
    joins: spec_fn(ClusterView, Seq<char>) -> bool,
)
    requires
        forall|i: int| 0 <= i < pieces.len() ==> (#[trigger] pieces[i]).len() > 0,
    ensures
        policy.joined(cluster_texts(gathered(pieces, joins))) == gathered(pieces, joins),
{
    clusters_have_the_script_of_their_first_character(pieces, joins);
    let clusters = gathered(pieces, joins);
    assert forall|i: int| 0 <= i < clusters.len() implies #[trigger] separate(
        cluster_texts(clusters),
    )[i] == clusters[i] by {
        assert(clusters[i].script == script_of(clusters[i].text));
    }
    assert(separate(cluster_texts(clusters)) == clusters);
}

/// Every piece is a cluster of its own, in its place, with its own script.
pub proof fn latin_joins_nothing(policy: LatinPolicy, pieces: Seq<Seq<char>>, i: int)
    requires
        0 <= i < pieces.len(),
    ensures
        policy.joined(pieces).len() == pieces.len(),
        policy.joined(pieces)[i].text == pieces[i],
        policy.joined(pieces)[i].script == script_of(pieces[i]),
{
}

/// A glyph is drawn as a bitmap exactly where it has no outline, whatever an outline
/// holds. The text of a run is shaped as it is.
pub proof fn latin_draws_outlines(policy: LatinPolicy, steps: Seq<PathEl>, run: Seq<char>)
    ensures
        policy.needs_bitmap(None),
        !policy.needs_bitmap(Some(steps)),
        policy.prepared(run) == run,
{
}

} // verus!
