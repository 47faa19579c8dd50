//! The Myanmar script: a consonant takes the signs that follow it, and the final
//! consonant that an asat silences, into its cluster.

use crate::outline::{has_geometry, PathEl};
use crate::policy::{str_contents, GlyphProbe, ScriptPolicy, ShapedRun};
use crate::segment::{
    cluster_texts, cluster_views, clusters_have_the_script_of_their_first_character,
    concatenation, ends_in_myanmar, gather, gathered, gathering_loses_nothing, script_of, Cluster,
    ClusterView, Script,
};
use vstd::prelude::*;

verus! {

/// The sign that silences the vowel of a consonant.
pub const ASAT: char = '\u{103A}';

/// The policy of the Myanmar script.
pub struct MyanmarPolicy;

/// Whether a character is in one of the blocks of the script.
pub open spec fn in_myanmar(ch: char) -> bool {
    ||| '\u{1000}' <= ch <= '\u{109F}'
    ||| '\u{AA60}' <= ch <= '\u{AA7F}'
    ||| '\u{A9E0}' <= ch <= '\u{A9FF}'
}

/// Whether a character is a vowel or tone mark, or another sign that leans on a
/// consonant.
pub open spec fn dependent(ch: char) -> bool {
    ||| '\u{102B}' <= ch <= '\u{1038}'
    ||| '\u{103A}' <= ch <= '\u{103F}'
}

/// Whether a character is a medial.
pub open spec fn medial(ch: char) -> bool {
    '\u{103C}' <= ch <= '\u{103E}'
}

/// Whether a character is a consonant, or an independent vowel that stands like
/// one.
pub open spec fn consonant(ch: char) -> bool {
    ||| '\u{1000}' <= ch <= '\u{102A}'
    ||| ch == '\u{103B}'
}

/// Whether a piece of text is a silenced final consonant.
pub open spec fn silenced(piece: Seq<char>) -> bool {
    piece.len() >= 2 && consonant(piece[0]) && piece[1] == ASAT
}

/// Whether a piece of text goes to the cluster before it: a sign to any cluster, a
/// silenced consonant to one of the script.
pub open spec fn attaches(before: ClusterView, piece: Seq<char>) -> bool {
    &&& piece.len() > 0
    &&& (dependent(piece[0]) || medial(piece[0]) || (before.script == Script::Myanmar && silenced(
        piece,
    )))
}

/// The clusters of the script.
pub open spec fn syllables(pieces: Seq<Seq<char>>) -> Seq<ClusterView> {
    gathered(pieces, |before: ClusterView, piece: Seq<char>| attaches(before, piece))
}

impl MyanmarPolicy {
    /// Whether a character is in one of the blocks of the script.
    pub fn is_myanmar_char(ch: char) -> (r: bool)
        ensures
            r == in_myanmar(ch),
    {
        ('\u{1000}' <= ch && ch <= '\u{109F}') || ('\u{AA60}' <= ch && ch <= '\u{AA7F}') || (
        '\u{A9E0}' <= ch && ch <= '\u{A9FF}')
    }

    /// Whether a character is a sign that leans on a consonant.
    pub fn is_dependent_sign(ch: char) -> (r: bool)
        ensures
            r == dependent(ch),
    {
        ('\u{102B}' <= ch && ch <= '\u{1038}') || ('\u{103A}' <= ch && ch <= '\u{103F}')
    }

    /// Whether a character is a medial.
    pub fn is_medial(ch: char) -> (r: bool)
        ensures
            r == medial(ch),
    {
        '\u{103C}' <= ch && ch <= '\u{103E}'
    }

    /// Whether a character is a consonant.
    pub fn is_consonant(ch: char) -> (r: bool)
        ensures
            r == consonant(ch),
    {
        ('\u{1000}' <= ch && ch <= '\u{102A}') || ch == '\u{103B}'
    }

    /// Whether a piece of text goes to the last of some clusters.
    fn joins_back(clusters: &Vec<Cluster>, piece: &str) -> (r: bool)
        ensures
            clusters@.len() > 0 ==> r == attaches(clusters@.last()@, piece@),
    {
        let length = piece.unicode_len();
        if length == 0 {
            return false;
        }
        let first = piece.get_char(0);
        if Self::is_dependent_sign(first) || Self::is_medial(first) {
            return true;
        }
        length >= 2 && Self::is_consonant(first) && piece.get_char(1) == ASAT && ends_in_myanmar(
            clusters,
        )
    }

    /// Joins pieces of text into the clusters of the script.
    pub fn join_myanmar_clusters(&self, clusters: &[&str]) -> (r: Vec<Cluster>)
        ensures
            cluster_views(r@) == syllables(str_contents(clusters@)),
    {
        let ghost all = str_contents(clusters@);
        let ghost joins = |before: ClusterView, piece: Seq<char>| attaches(before, piece);
        let mut result: Vec<Cluster> = Vec::new();
        let mut i: usize = 0;
        assert(cluster_views(result@) == gathered(all.take(0), joins));
        while i < clusters.len()
            invariant
                i <= clusters@.len(),
                all == str_contents(clusters@),
                joins == |before: ClusterView, piece: Seq<char>| attaches(before, piece),
                cluster_views(result@) == gathered(all.take(i as int), joins),
            decreases clusters@.len() - i,
        {
            let piece = clusters[i];
            let join = Self::joins_back(&result, piece);
            gather(&mut result, piece, join, Ghost(all.take(i as int)), Ghost(joins));
            assert(all.take(i as int).push(piece@) == all.take(i + 1));
            i += 1;
        }
        assert(all.take(i as int) == all);
        result
    }
}

impl ScriptPolicy for MyanmarPolicy {
    open spec fn joined(&self, pieces: Seq<Seq<char>>) -> Seq<ClusterView> {
        syllables(pieces)
    }

    open spec fn needs_bitmap(&self, outline: Option<Seq<PathEl>>) -> bool {
        match outline {
            Some(steps) => !has_geometry(steps),
            None => true,
        }
    }

    open spec fn prepared(&self, run: Seq<char>) -> Seq<char> {
        run
    }

    fn cluster_join_rule(&self, clusters: &[&str]) -> (r: Vec<Cluster>) {
        self.join_myanmar_clusters(clusters)
    }

    fn requires_bitmap_fallback(&self, glyph: &GlyphProbe) -> (r: bool) {
        match glyph.vector_outline() {
            Some(outline) => !outline.draws(),
            None => true,
        }
    }

    fn contextual_shaping(&self, run: &str) -> (r: ShapedRun) {
        ShapedRun::new(run)
    }
}

impl Default for MyanmarPolicy {
    fn default() -> (r: Self)
        ensures
            r == MyanmarPolicy,
    {
        MyanmarPolicy
    }
}

/// The policy loses no text: its clusters, put together, are the pieces put
/// together. There are no more of them than pieces, and some where there are pieces.
pub proof fn myanmar_keeps_the_text(policy: MyanmarPolicy, pieces: Seq<Seq<char>>)
    ensures
        concatenation(cluster_texts(policy.joined(pieces))) == concatenation(pieces),
        policy.joined(pieces).len() <= pieces.len(),
        policy.joined(pieces).len() == 0 <==> pieces.len() == 0,
{
    gathering_loses_nothing(pieces, |before: ClusterView, piece: Seq<char>| attaches(before, piece));
}

/// Where no piece is empty, no cluster but the first starts with a sign that leans
/// on a consonant.
pub proof fn no_cluster_starts_with_a_sign(policy: MyanmarPolicy, pieces: Seq<Seq<char>>, i: int)
    requires
        forall|k: int| 0 <= k < pieces.len() ==> (#[trigger] pieces[k]).len() > 0,
        0 < i < policy.joined(pieces).len(),
    ensures
        policy.joined(pieces)[i].text.len() > 0,
        !dependent(policy.joined(pieces)[i].text[0]),
        !medial(policy.joined(pieces)[i].text[0]),
    decreases pieces.len(),
{
    let clusters = policy.joined(pieces);
    let rest = pieces.drop_last();
    let before = policy.joined(rest);
    assert(forall|k: int| 0 <= k < rest.len() ==> rest[k] == pieces[k]);
    if i < before.len() {
        no_cluster_starts_with_a_sign(policy, rest, i);
    }
    if before.len() > 0 && attaches(before.last(), pieces.last()) {
        if i < clusters.len() - 1 {
            assert(clusters[i] == before[i]);
        }
    } else if i < clusters.len() - 1 {
        assert(clusters[i] == before[i]);
    }
}

/// Rejoining the texts of clusters one by one: as long as none attaches to the one
/// before, they come out as they are.
proof fn settled_clusters_stay(pieces: Seq<Seq<char>>, count: int)
    requires
        forall|k: int| 0 <= k < pieces.len() ==> (#[trigger] pieces[k]).len() > 0,
        0 <= count <= syllables(pieces).len(),
        forall|i: int|
            0 < i < count ==> !attaches(
                syllables(pieces)[i - 1],
                (#[trigger] syllables(pieces)[i]).text,
            ),
    ensures
        syllables(cluster_texts(syllables(pieces)).take(count)) == syllables(pieces).take(count),
    decreases count,
{
    let clusters = syllables(pieces);
    let texts = cluster_texts(clusters);
    if count > 0 {
        settled_clusters_stay(pieces, count - 1);
        clusters_have_the_script_of_their_first_character(
            pieces,
            |before: ClusterView, piece: Seq<char>| attaches(before, piece),
        );
        let last = clusters[count - 1];
        assert(last.script == script_of(last.text));
        assert(texts.take(count).drop_last() == texts.take(count - 1));
        assert(texts.take(count).last() == last.text);
        if count > 1 {
            assert(clusters.take(count - 1).last() == clusters[count - 2]);
            assert(!attaches(clusters[count - 1 - 1], clusters[count - 1].text));
        }
        assert(clusters.take(count) == clusters.take(count - 1).push(last));
    }
}

/// Each piece adds at most one cluster.
proof fn a_piece_adds_at_most_one_cluster(pieces: Seq<Seq<char>>, count: int)
    requires
        0 <= count <= pieces.len(),
    ensures
        syllables(pieces).len() <= syllables(pieces.take(count)).len() + (pieces.len() - count),
    decreases pieces.len(),
{
    if count == pieces.len() {
        assert(pieces.take(count) == pieces);
    } else {
        a_piece_adds_at_most_one_cluster(pieces.drop_last(), count);
        assert(pieces.drop_last().take(count) == pieces.take(count));
    }
}

/// Joining the joined clusters again leaves them as they are, exactly where no
/// cluster after one of the script has come to be a silenced consonant: such a
/// cluster, whose asat was cut from its consonant, joins the one before only the
/// second time. Pieces must not be empty.
pub proof fn joining_again(policy: MyanmarPolicy, pieces: Seq<Seq<char>>)
    requires
        forall|k: int| 0 <= k < pieces.len() ==> (#[trigger] pieces[k]).len() > 0,
    ensures
        ({
            let clusters = policy.joined(pieces);
            policy.joined(cluster_texts(clusters)) == clusters <==> forall|i: int|
                0 < i < clusters.len() && clusters[i - 1].script == Script::Myanmar ==> !silenced(
                    (#[trigger] clusters[i]).text,
                )
        }),
{
    let clusters = policy.joined(pieces);
    let texts = cluster_texts(clusters);
    assert forall|i: int| 0 < i < clusters.len() implies #[trigger] attaches(
        clusters[i - 1],
        clusters[i].text,
    ) == (clusters[i - 1].script == Script::Myanmar && silenced(clusters[i].text)) by {
        no_cluster_starts_with_a_sign(policy, pieces, i);
    }
    assert(texts.take(texts.len() as int) == texts);
    assert(clusters.take(clusters.len() as int) == clusters);
    if forall|i: int|
        0 < i < clusters.len() && clusters[i - 1].script == Script::Myanmar ==> !silenced(
            (#[trigger] clusters[i]).text,
        ) {
        settled_clusters_stay(pieces, clusters.len() as int);
    } else {
        let i = first_unsettled(clusters);
        settled_clusters_stay(pieces, i);
        assert(texts.take(i + 1).drop_last() == texts.take(i));
        assert(texts.take(i + 1).last() == clusters[i].text);
        assert(clusters.take(i).last() == clusters[i - 1]);
        assert(attaches(clusters[i - 1], clusters[i].text));
        assert(syllables(texts.take(i + 1)).len() == i);
        a_piece_adds_at_most_one_cluster(texts, i + 1);
    }
}

/// The first cluster that attaches to the one before it.
proof fn first_unsettled(clusters: Seq<ClusterView>) -> (r: int)
    requires
        exists|i: int|
            0 < i < clusters.len() && attaches(
                clusters[i - 1],
                (#[trigger] clusters[i]).text,
            ),
    ensures
        0 < r < clusters.len(),
        attaches(clusters[r - 1], clusters[r].text),
        forall|i: int| 0 < i < r ==> !attaches(clusters[i - 1], (#[trigger] clusters[i]).text),
    decreases clusters.len(),
{
    let i = choose|i: int|
        0 < i < clusters.len() && attaches(clusters[i - 1], (#[trigger] clusters[i]).text);
    let rest = clusters.take(i);
    if exists|k: int|
        0 < k < rest.len() && attaches(rest[k - 1], (#[trigger] rest[k]).text) {
        let r = first_unsettled(rest);
        assert forall|k: int| 0 < k < r implies !attaches(
            clusters[k - 1],
            (#[trigger] clusters[k]).text,
        ) by {
            assert(rest[k] == clusters[k]);
            assert(rest[k - 1] == clusters[k - 1]);
        }
        r
    } else {
        assert forall|k: int| 0 < k < i implies !attaches(
            clusters[k - 1],
            (#[trigger] clusters[k]).text,
        ) by {
            assert(rest[k] == clusters[k]);
            assert(rest[k - 1] == clusters[k - 1]);
        }
        i
    }
}

/// Joining clusters again changes nothing where no piece is empty and none starts
/// with an asat.
pub proof fn joining_again_changes_nothing(policy: MyanmarPolicy, pieces: Seq<Seq<char>>)
    requires
        forall|k: int|
            0 <= k < pieces.len() ==> (#[trigger] pieces[k]).len() > 0 && pieces[k][0] != ASAT,
    ensures
        policy.joined(cluster_texts(policy.joined(pieces))) == policy.joined(pieces),
{
    let clusters = policy.joined(pieces);
    assert forall|i: int|
        0 < i < clusters.len() && clusters[i - 1].script == Script::Myanmar implies !silenced(
        (#[trigger] clusters[i]).text,
    ) by {
        a_cluster_is_silenced_by_its_first_piece(pieces, i);
    }
    joining_again(policy, pieces);
}

/// Where no piece starts with an asat, no cluster after one of the script is a
/// silenced consonant.
proof fn a_cluster_is_silenced_by_its_first_piece(pieces: Seq<Seq<char>>, i: int)
    requires
        forall|k: int|
            0 <= k < pieces.len() ==> (#[trigger] pieces[k]).len() > 0 && pieces[k][0] != ASAT,
        0 < i < syllables(pieces).len(),
        syllables(pieces)[i - 1].script == Script::Myanmar,
    ensures
        !silenced(syllables(pieces)[i].text),
    decreases pieces.len(),
{
    let clusters = syllables(pieces);
    let rest = pieces.drop_last();
    let before = syllables(rest);
    let last = pieces.last();
    assert(last == pieces[pieces.len() - 1]);
    assert(forall|k: int| 0 <= k < rest.len() ==> rest[k] == pieces[k]);
    if before.len() > 0 && attaches(before.last(), last) {
        assert(clusters.len() == before.len());
        assert(before[i - 1] == clusters[i - 1]);
        a_cluster_is_silenced_by_its_first_piece(rest, i);
        if i == clusters.len() - 1 {
            clusters_have_the_script_of_their_first_character(
                rest,
                |before: ClusterView, piece: Seq<char>| attaches(before, piece),
            );
            let text = before[i].text;
            assert(text.len() > 0);
            assert(clusters[i].text == text + last);
        }
    } else if i < before.len() {
        assert(before[i - 1] == clusters[i - 1]);
        assert(before[i] == clusters[i]);
        a_cluster_is_silenced_by_its_first_piece(rest, i);
    } else {
        assert(before.last() == clusters[i - 1]);
    }
}

/// Whether a code point is a vowel or tone sign, the asat or a medial: U+102B to U+1038
/// and U+103A to U+103F. The virama, U+1039, is none.
pub open spec fn is_sign_code(code: int) -> bool {
    0x102B <= code <= 0x103F && code != 0x1039
}

/// Pieces joined one more: a piece that starts with a vowel or tone sign, the asat or a
/// medial goes to the cluster before it, of whatever script. A letter, U+1000 to U+102A,
/// that an asat, U+103A, follows at once goes to a cluster of the script. Every other
/// piece, and the first one, is a cluster of its own.
pub proof fn one_more_piece(policy: MyanmarPolicy, pieces: Seq<Seq<char>>, piece: Seq<char>)
    ensures
        ({
            let before = policy.joined(pieces);
            let after = policy.joined(pieces.push(piece));
            let leans = piece.len() > 0 && is_sign_code(piece[0] as int);
            let closes = piece.len() > 1 && 0x1000 <= piece[0] as int <= 0x102A && piece[1] as int
                == 0x103A;
            if before.len() > 0 && (leans || closes && before.last().script == Script::Myanmar) {
                &&& after.len() == before.len()
                &&& after.last().text == before.last().text + piece
                &&& after.last().script == before.last().script
                &&& after.drop_last() == before.drop_last()
            } else {
                &&& after.len() == before.len() + 1
                &&& after.last().text == piece
                &&& after.last().script == script_of(piece)
                &&& after.drop_last() == before
            }
        }),
{
    assert(pieces.push(piece).drop_last() == pieces);
    let before = policy.joined(pieces);
    let after = policy.joined(pieces.push(piece));
    assert(after.drop_last() == if after.len() > before.len() {
        before
    } else {
        before.drop_last()
    });
}

/// A piece that starts with a Myanmar digit, U+1040 to U+1049, or a section mark, U+104A
/// and U+104B, or with any other character but the vowel and tone signs, the asat and the
/// medials, and that is no silenced consonant, starts a cluster of its own: there is one
/// cluster more, the last one is that piece, and those before stay as they were.
pub proof fn digits_and_marks_stand_alone(
    policy: MyanmarPolicy,
    pieces: Seq<Seq<char>>,
    piece: Seq<char>,
)
    requires
        piece.len() > 0,
        0x1040 <= piece[0] as int <= 0x104B || !is_sign_code(piece[0] as int) && !(piece.len() > 1
            && piece[1] as int == 0x103A),
    ensures
        policy.joined(pieces.push(piece)).len() == policy.joined(pieces).len() + 1,
        policy.joined(pieces.push(piece)).last().text == piece,
        policy.joined(pieces.push(piece)).drop_last() == policy.joined(pieces),
{
    one_more_piece(policy, pieces, piece);
}

/// The classes of characters. All signs, medials and consonants are of the script; no
/// digit and no section mark is one of them; medials are signs, and consonants are none
/// but for medial ya, U+103B.
pub proof fn characters_fall_into_classes(ch: char)
    ensures
        dependent(ch) <==> is_sign_code(ch as int),
        medial(ch) <==> ch as int == 0x103C || ch as int == 0x103D || ch as int == 0x103E,
        consonant(ch) <==> 0x1000 <= ch as int <= 0x102A || ch as int == 0x103B,
        medial(ch) ==> dependent(ch),
        dependent(ch) && consonant(ch) <==> ch as int == 0x103B,
        dependent(ch) || consonant(ch) ==> in_myanmar(ch),
        0x1040 <= ch as int <= 0x104B ==> in_myanmar(ch) && !dependent(ch) && !consonant(ch),
        in_myanmar(ch) <==> 0x1000 <= ch as int <= 0x109F || 0xA9E0 <= ch as int <= 0xA9FF
            || 0xAA60 <= ch as int <= 0xAA7F,
{
}

/// A glyph is drawn as a bitmap where it has no outline, and where its outline has no
/// line and no curve. One line or curve anywhere in it is enough for an outline. The text
/// of a run is shaped as it is.
pub proof fn myanmar_draws_lines_and_curves(
    policy: MyanmarPolicy,
    steps: Seq<PathEl>,
    step: PathEl,
    run: Seq<char>,
)
    ensures
        policy.needs_bitmap(None),
        policy.needs_bitmap(Some(Seq::<PathEl>::empty())),
        policy.needs_bitmap(Some(steps.push(step))) <==> policy.needs_bitmap(Some(steps)) && (
        step is MoveTo || step is ClosePath),
        policy.prepared(run) == run,
{
    let more = steps.push(step);
    assert(more[steps.len() as int] == step);
    if has_geometry(steps) {
        let i = choose|i: int| 0 <= i < steps.len() && (#[trigger] steps[i]).draws();
        assert(more[i].draws());
    }
    if has_geometry(more) && !has_geometry(steps) {
        let i = choose|i: int| 0 <= i < more.len() && (#[trigger] more[i]).draws();
        if i < steps.len() {
            assert(steps[i].draws());
        }
    }
}

} // verus!
