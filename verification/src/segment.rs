//! Text cut into clusters, each with the script that it is written in.

use unicode_script::UnicodeScript;
use unicode_segmentation::UnicodeSegmentation;
use vstd::prelude::*;

verus! {

/// The tag of the Arabic script.
pub const TAG_ARABIC: u32 = 0x4172_6162;

/// The tag of the Latin script.
pub const TAG_LATIN: u32 = 0x4C61_746E;

/// The tag of the Myanmar script.
pub const TAG_MYANMAR: u32 = 0x4D79_6D72;

/// The tag of the Syriac script.
pub const TAG_SYRIAC: u32 = 0x5379_7263;

/// The tag of the Thaana script.
pub const TAG_THAANA: u32 = 0x5468_6161;

/// The tag that stands for no known script.
pub const TAG_UNKNOWN: u32 = 0x5A7A_7A7A;

/// A script: by name where the engine knows it, by its four-letter ISO 15924 tag,
/// first letter highest, otherwise.
#[derive(Clone, Copy, Debug, PartialEq, Eq, Structural)]
pub enum Script {
    Arabic,
    Latin,
    Myanmar,
    Syriac,
    Thaana,
    Unknown,
    Other { tag: u32 },
}

impl Script {
    /// The script of a tag.
    pub open spec fn of_tag(tag: u32) -> Script {
        if tag == TAG_ARABIC {
            Script::Arabic
        } else if tag == TAG_LATIN {
            Script::Latin
        } else if tag == TAG_MYANMAR {
            Script::Myanmar
        } else if tag == TAG_SYRIAC {
            Script::Syriac
        } else if tag == TAG_THAANA {
            Script::Thaana
        } else if tag == TAG_UNKNOWN {
            Script::Unknown
        } else {
            Script::Other { tag }
        }
    }

    /// The tag of a script.
    pub open spec fn iso_tag(self) -> u32 {
        match self {
            Script::Arabic => TAG_ARABIC,
            Script::Latin => TAG_LATIN,
            Script::Myanmar => TAG_MYANMAR,
            Script::Syriac => TAG_SYRIAC,
            Script::Thaana => TAG_THAANA,
            Script::Unknown => TAG_UNKNOWN,
            Script::Other { tag } => tag,
        }
    }

    /// The script of a tag.
    pub fn from_tag(tag: u32) -> (r: Script)
        ensures
            r == Script::of_tag(tag),
    {
        if tag == TAG_ARABIC {
            Script::Arabic
        } else if tag == TAG_LATIN {
            Script::Latin
        } else if tag == TAG_MYANMAR {
            Script::Myanmar
        } else if tag == TAG_SYRIAC {
            Script::Syriac
        } else if tag == TAG_THAANA {
            Script::Thaana
        } else if tag == TAG_UNKNOWN {
            Script::Unknown
        } else {
            Script::Other { tag }
        }
    }

    /// The tag of a script.
    pub fn tag(self) -> (r: u32)
        ensures
            r == self.iso_tag(),
    {
        match self {
            Script::Arabic => TAG_ARABIC,
            Script::Latin => TAG_LATIN,
            Script::Myanmar => TAG_MYANMAR,
            Script::Syriac => TAG_SYRIAC,
            Script::Thaana => TAG_THAANA,
            Script::Unknown => TAG_UNKNOWN,
            Script::Other { tag } => tag,
        }
    }
}

/// A tag survives the way to its script and back.
pub proof fn tags_round_trip(tag: u32)
    ensures
        Script::of_tag(tag).iso_tag() == tag,
        Script::of_tag(Script::of_tag(tag).iso_tag()) == Script::of_tag(tag),
{
}

/// The ISO 15924 tag of the script of a character, as the Unicode character
/// database assigns it.
pub uninterp spec fn script_tag_of(ch: char) -> u32;

/// Calls `unicode_script::UnicodeScript::script` on a character and gives the
/// script by its tag, `unicode_script::Script::as_iso15924_tag`. A table of the
/// crate decides it.
#[verifier::external_body]
fn char_script_tag(ch: char) -> (r: u32)
    ensures
        r == script_tag_of(ch),
{
    ch.script().as_iso15924_tag()
}

/// Pieces put together in order.
pub open spec fn concatenation(pieces: Seq<Seq<char>>) -> Seq<char>
    decreases pieces.len(),
{
    if pieces.len() == 0 {
        Seq::empty()
    } else {
        concatenation(pieces.drop_last()) + pieces.last()
    }
}

/// The characters of several strings.
pub open spec fn contents(strings: Seq<String>) -> Seq<Seq<char>> {
    Seq::new(strings.len(), |i: int| strings[i]@)
}

/// The extended grapheme clusters of a text, in order.
pub uninterp spec fn graphemes_of(text: Seq<char>) -> Seq<Seq<char>>;

/// Calls `unicode_segmentation::UnicodeSegmentation::graphemes` for extended
/// clusters and copies them out. The iterator cuts the text from each boundary to
/// the next: the clusters put together are the text, and none is empty.
#[verifier::external_body]
fn graphemes(text: &str) -> (r: Vec<String>)
    ensures
        contents(r@) == graphemes_of(text@),
        concatenation(contents(r@)) == text@,
        forall|i: int| 0 <= i < r@.len() ==> (#[trigger] r@[i])@.len() > 0,
{
    text.graphemes(true).map(|g| g.to_string()).collect()
}

/// What a cluster says.
pub struct ClusterView {
    pub text: Seq<char>,
    pub script: Script,
}

/// A run of characters that is written as one, with the script of its first
/// character.
#[derive(Clone, Debug, PartialEq, Eq)]
pub struct Cluster {
    pub text: String,
    pub script: Script,
}

impl View for Cluster {
    type V = ClusterView;

    open spec fn view(&self) -> ClusterView {
        ClusterView { text: self.text@, script: self.script }
    }
}

/// What several clusters say.
pub open spec fn cluster_views(clusters: Seq<Cluster>) -> Seq<ClusterView> {
    Seq::new(clusters.len(), |i: int| clusters[i]@)
}

/// The script of the first character of a piece; unknown for an empty one.
pub open spec fn script_of(piece: Seq<char>) -> Script {
    if piece.len() == 0 {
        Script::Unknown
    } else {
        Script::of_tag(script_tag_of(piece[0]))
    }
}

/// Pieces gathered into clusters: a piece that joins the cluster before it goes to
/// it, every other piece, and the first one, starts a cluster with its own script.
pub open spec fn gathered(
    pieces: Seq<Seq<char>>,
    joins: spec_fn(ClusterView, Seq<char>) -> bool,
) -> Seq<ClusterView>
    decreases pieces.len(),
{
    if pieces.len() == 0 {
        Seq::empty()
    } else {
        let before = gathered(pieces.drop_last(), joins);
        let last = pieces.last();
        if before.len() > 0 && joins(before.last(), last) {
            before.drop_last().push(
                ClusterView { text: before.last().text + last, script: before.last().script },
            )
        } else {
            before.push(ClusterView { text: last, script: script_of(last) })
        }
    }
}

/// Adds a piece to the clusters: to the last one where it joins, as a new one
/// otherwise.
pub(crate) fn gather(
    clusters: &mut Vec<Cluster>,
    piece: &str,
    join: bool,
    Ghost(pieces): Ghost<Seq<Seq<char>>>,
    Ghost(joins): Ghost<spec_fn(ClusterView, Seq<char>) -> bool>,
)
    requires
        cluster_views(old(clusters)@) == gathered(pieces, joins),
        old(clusters)@.len() > 0 ==> join == joins(old(clusters)@.last()@, piece@),
    ensures
        cluster_views(final(clusters)@) == gathered(pieces.push(piece@), joins),
{
    let ghost before = clusters@;
    assert(pieces.push(piece@).drop_last() == pieces);
    assert(before.len() > 0 ==> cluster_views(before).last() == before.last()@);
    if join && clusters.len() > 0 {
        let last = clusters.pop();
        if let Some(mut cluster) = last {
            assert(cluster_views(clusters@) == cluster_views(before).drop_last());
            cluster.text.append(piece);
            clusters.push(cluster);
            assert(cluster_views(clusters@) == gathered(pieces.push(piece@), joins));
        }
    } else {
        let script = piece_script(piece);
        clusters.push(Cluster { text: piece.to_string(), script });
        assert(cluster_views(clusters@) == gathered(pieces.push(piece@), joins));
    }
}

/// The script of the first character of a piece; unknown for an empty one.
pub fn piece_script(piece: &str) -> (r: Script)
    ensures
        r == script_of(piece@),
{
    if piece.unicode_len() == 0 {
        Script::Unknown
    } else {
        Script::from_tag(char_script_tag(piece.get_char(0)))
    }
}

/// The vowel signs tall aa and aa of the Myanmar script, which stand to the right of
/// their consonant and which the grapheme rules leave on their own.
pub open spec fn is_trailing_vowel(ch: char) -> bool {
    ch == '\u{102B}' || ch == '\u{102C}'
}

/// Whether a grapheme belongs to the cluster before it: a trailing vowel to one of
/// the Myanmar script.
pub open spec fn trails(before: ClusterView, piece: Seq<char>) -> bool {
    before.script == Script::Myanmar && piece.len() > 0 && is_trailing_vowel(piece[0])
}

/// Whether the last of some clusters is in the Myanmar script.
pub(crate) fn ends_in_myanmar(clusters: &Vec<Cluster>) -> (r: bool)
    ensures
        r == (clusters@.len() > 0 && clusters@.last().script == Script::Myanmar),
{
    clusters.len() > 0 && clusters[clusters.len() - 1].script == Script::Myanmar
}

/// The clusters of a text: its graphemes, trailing vowels gathered in.
pub open spec fn segments(text: Seq<char>) -> Seq<ClusterView> {
    gathered(graphemes_of(text), |before: ClusterView, piece: Seq<char>| trails(before, piece))
}

/// Gathers graphemes into clusters and finds the script of each.
pub fn gather_graphemes(pieces: &Vec<String>) -> (r: Vec<Cluster>)
    ensures
        cluster_views(r@) == gathered(contents(pieces@), |before: ClusterView, piece: Seq<char>| trails(before, piece)),
{
    let ghost all = contents(pieces@);
    let ghost joins = |before: ClusterView, piece: Seq<char>| trails(before, piece);
    let mut clusters: Vec<Cluster> = Vec::new();
    let mut i: usize = 0;
    assert(cluster_views(clusters@) == gathered(all.take(0), joins));
    while i < pieces.len()
        invariant
            i <= pieces@.len(),
            all == contents(pieces@),
            joins == |before: ClusterView, piece: Seq<char>| trails(before, piece),
            cluster_views(clusters@) == gathered(all.take(i as int), joins),
        decreases pieces@.len() - i,
    {
        let piece = pieces[i].as_str();
        let join = if piece.is_empty() || !ends_in_myanmar(&clusters) {
            false
        } else {
            let first = piece.get_char(0);
            first == '\u{102B}' || first == '\u{102C}'
        };
        gather(&mut clusters, piece, join, Ghost(all.take(i as int)), Ghost(joins));
        assert(all.take(i as int).push(piece@) == all.take(i + 1));
        i += 1;
    }
    assert(all.take(i as int) == all);
    clusters
}

/// Cuts a text into clusters and finds the script of each.
pub fn segment_text(text: &str) -> (r: Vec<Cluster>)
    ensures
        cluster_views(r@) == segments(text@),
        concatenation(cluster_texts(segments(text@))) == text@,
        forall|i: int|
            0 <= i < r@.len() ==> {
                &&& (#[trigger] r@[i]).text@.len() > 0
                &&& r@[i].script == script_of(r@[i].text@)
            },
        r@.len() == 0 <==> text@.len() == 0,
{
    let pieces = graphemes(text);
    let clusters = gather_graphemes(&pieces);
    proof {
        let joins = |before: ClusterView, piece: Seq<char>| trails(before, piece);
        gathering_loses_nothing(contents(pieces@), joins);
        clusters_have_the_script_of_their_first_character(contents(pieces@), joins);
        let views = cluster_views(clusters@);
        assert forall|i: int| 0 <= i < clusters@.len() implies {
            &&& (#[trigger] clusters@[i]).text@.len() > 0
            &&& clusters@[i].script == script_of(clusters@[i].text@)
        } by {
            assert(views[i] == clusters@[i]@);
        }
        if clusters@.len() > 0 {
            assert(cluster_texts(views).last() == clusters@.last().text@);
            assert(clusters@[clusters@.len() - 1] == clusters@.last());
        }
    }
    clusters
}

/// The texts of clusters.
pub open spec fn cluster_texts(clusters: Seq<ClusterView>) -> Seq<Seq<char>> {
    Seq::new(clusters.len(), |i: int| clusters[i].text)
}

/// The clusters that pieces are gathered into, put together, are the pieces put
/// together. There are no more of them than pieces.
pub proof fn gathering_loses_nothing(
    pieces: Seq<Seq<char>>,
    joins: spec_fn(ClusterView, Seq<char>) -> bool,
)
    ensures
        concatenation(cluster_texts(gathered(pieces, joins))) == concatenation(pieces),
        gathered(pieces, joins).len() <= pieces.len(),
        pieces.len() > 0 ==> gathered(pieces, joins).len() > 0,
    decreases pieces.len(),
{
    let result = gathered(pieces, joins);
    if pieces.len() == 0 {
        assert(cluster_texts(result) == pieces);
    } else {
        gathering_loses_nothing(pieces.drop_last(), joins);
        let before = gathered(pieces.drop_last(), joins);
        let last = pieces.last();
        if before.len() > 0 && joins(before.last(), last) {
            assert(cluster_texts(result).drop_last() == cluster_texts(before).drop_last());
            assert(cluster_texts(result).last() == cluster_texts(before).last() + last);
            let head = concatenation(cluster_texts(before).drop_last());
            assert(head + (cluster_texts(before).last() + last) == (head + cluster_texts(
                before,
            ).last()) + last);
        } else {
            assert(cluster_texts(result).drop_last() == cluster_texts(before));
            assert(cluster_texts(result).last() == last);
        }
    }
}

/// Where no piece is empty, no cluster is, and every cluster has the script of its
/// first character.
pub proof fn clusters_have_the_script_of_their_first_character(
    pieces: Seq<Seq<char>>,
    joins: spec_fn(ClusterView, Seq<char>) -> bool,
)
    requires
        forall|i: int| 0 <= i < pieces.len() ==> (#[trigger] pieces[i]).len() > 0,
    ensures
        forall|i: int|
            0 <= i < gathered(pieces, joins).len() ==> {
                let cluster = #[trigger] gathered(pieces, joins)[i];
                cluster.text.len() > 0 && cluster.script == script_of(cluster.text)
            },
    decreases pieces.len(),
{
    if pieces.len() > 0 {
        let rest = pieces.drop_last();
        assert(forall|i: int| 0 <= i < rest.len() ==> rest[i] == pieces[i]);
        clusters_have_the_script_of_their_first_character(rest, joins);
        let before = gathered(rest, joins);
        assert(pieces.last().len() > 0);
        if before.len() > 0 && joins(before.last(), pieces.last()) {
            assert(before[before.len() - 1] == before.last());
        }
    }
}

/// How many clusters are in a script.
pub open spec fn occurrences(clusters: Seq<ClusterView>, script: Script) -> nat
    decreases clusters.len(),
{
    if clusters.len() == 0 {
        0
    } else {
        occurrences(clusters.drop_last(), script) + if clusters.last().script == script {
            1nat
        } else {
            0nat
        }
    }
}

/// Whether a script is the script of a run of clusters: one that no other known
/// script occurs more often than. A run without a known script has the unknown
/// one.
pub open spec fn is_majority(clusters: Seq<ClusterView>, script: Script) -> bool {
    if script == Script::Unknown {
        forall|i: int|
            0 <= i < clusters.len() ==> (#[trigger] clusters[i]).script == Script::Unknown
    } else {
        &&& occurrences(clusters, script) > 0
        &&& forall|other: Script|
            other != Script::Unknown ==> #[trigger] occurrences(clusters, other) <= occurrences(
                clusters,
                script,
            )
    }
}

/// There are no more occurrences of a script than clusters; a script occurs
/// exactly where some cluster has it.
pub proof fn occurrences_are_clusters(clusters: Seq<ClusterView>, script: Script)
    ensures
        occurrences(clusters, script) <= clusters.len(),
        occurrences(clusters, script) > 0 <==> exists|i: int|
            0 <= i < clusters.len() && (#[trigger] clusters[i]).script == script,
    decreases clusters.len(),
{
    if clusters.len() > 0 {
        let rest = clusters.drop_last();
        occurrences_are_clusters(rest, script);
        if occurrences(rest, script) > 0 {
            let i = choose|i: int| 0 <= i < rest.len() && (#[trigger] rest[i]).script == script;
            assert(clusters[i].script == script);
        }
        if exists|i: int| 0 <= i < clusters.len() && (#[trigger] clusters[i]).script == script {
            let i = choose|i: int|
                0 <= i < clusters.len() && (#[trigger] clusters[i]).script == script;
            if i < clusters.len() - 1 {
                assert(rest[i].script == script);
            }
        }
    }
}

/// Adds one to the count of a script, or starts counting it.
fn count_script(
    counts: &mut Vec<(Script, usize)>,
    script: Script,
    Ghost(seen): Ghost<Seq<ClusterView>>,
)
    requires
        script != Script::Unknown,
        is_tally(old(counts)@, seen),
        seen.len() < usize::MAX,
    ensures
        forall|cluster: ClusterView|
            cluster.script == script ==> is_tally(final(counts)@, #[trigger] seen.push(cluster)),
{
    let ghost before = counts@;
    proof {
        occurrences_are_clusters(seen, script);
    }
    let mut i: usize = 0;
    while i < counts.len()
        invariant
            i <= counts@.len(),
            counts@ == before,
            is_tally(before, seen),
            seen.len() < usize::MAX,
            forall|j: int| 0 <= j < i ==> (#[trigger] before[j]).0 != script,
        decreases counts@.len() - i,
    {
        if counts[i].0 == script {
            let count: usize = counts[i].1;
            proof {
                occurrences_are_clusters(seen, script);
                assert(before[i as int].1 == occurrences(seen, script));
            }
            counts.set(i, (script, count + 1));
            proof {
                one_more_is_a_tally(before, counts@, seen, script, i as int);
            }
            return ;
        }
        i += 1;
    }
    counts.push((script, 1));
    proof {
        one_more_is_a_tally(before, counts@, seen, script, before.len() as int);
    }
}

/// Whether counts are how often each known script occurs, each script once.
pub open spec fn is_tally(counts: Seq<(Script, usize)>, clusters: Seq<ClusterView>) -> bool {
    &&& forall|j: int, k: int|
        0 <= j < k < counts.len() ==> (#[trigger] counts[j]).0 != (#[trigger] counts[k]).0
    &&& forall|j: int|
        0 <= j < counts.len() ==> {
            &&& (#[trigger] counts[j]).0 != Script::Unknown
            &&& counts[j].1 == occurrences(clusters, counts[j].0)
            &&& counts[j].1 > 0
        }
    &&& forall|script: Script|
        script != Script::Unknown && #[trigger] occurrences(clusters, script) > 0 ==> exists|j: int|
            0 <= j < counts.len() && (#[trigger] counts[j]).0 == script
}

/// A tally whose count of a script is raised by one is a tally of one cluster more.
proof fn one_more_is_a_tally(
    before: Seq<(Script, usize)>,
    after: Seq<(Script, usize)>,
    seen: Seq<ClusterView>,
    script: Script,
    at: int,
)
    requires
        script != Script::Unknown,
        is_tally(before, seen),
        0 <= at <= before.len(),
        seen.len() < usize::MAX,
        at < before.len() ==> before[at].0 == script && after == before.update(
            at,
            (script, (before[at].1 + 1) as usize),
        ),
        at == before.len() ==> after == before.push((script, 1usize)) && forall|j: int|
            0 <= j < before.len() ==> (#[trigger] before[j]).0 != script,
    ensures
        forall|cluster: ClusterView|
            cluster.script == script ==> is_tally(after, #[trigger] seen.push(cluster)),
{
    occurrences_are_clusters(seen, script);
    assert forall|cluster: ClusterView| cluster.script == script implies is_tally(
        after,
        #[trigger] seen.push(cluster),
    ) by {
        let more = seen.push(cluster);
        assert(more.drop_last() == seen);
        assert forall|s: Script| #[trigger] occurrences(more, s) == occurrences(seen, s) + (if s
            == script {
            1nat
        } else {
            0nat
        }) by {}
        assert forall|j: int| 0 <= j < after.len() implies {
            &&& (#[trigger] after[j]).0 != Script::Unknown
            &&& after[j].1 == occurrences(more, after[j].0)
            &&& after[j].1 > 0
        } by {
            if j != at {
                assert(after[j] == before[j]);
            } else {
                assert(after[at].0 == script);
                if at == before.len() {
                    assert(occurrences(seen, script) == 0);
                }
            }
        }
        assert forall|s: Script|
            s != Script::Unknown && #[trigger] occurrences(more, s) > 0 implies exists|j: int|
            0 <= j < after.len() && (#[trigger] after[j]).0 == s by {
            if s == script {
                assert(after[at].0 == s);
            } else {
                assert(occurrences(seen, s) > 0);
                let j = choose|j: int| 0 <= j < before.len() && (#[trigger] before[j]).0 == s;
                assert(after[j] == before[j]);
            }
        }
        assert forall|j: int, k: int| 0 <= j < k < after.len() implies (#[trigger] after[j]).0 != (
        #[trigger] after[k]).0 by {
            if j != at {
                assert(after[j] == before[j]);
            }
            if k != at {
                assert(after[k] == before[k]);
            }
            if at < before.len() {
                assert(before[j].0 != before[k].0);
            }
        }
    }
}

/// The most frequent known script of clusters; which one of several that are equally
/// frequent is left open.
pub fn majority_script(clusters: &Vec<Cluster>) -> (r: Script)
    ensures
        is_majority(cluster_views(clusters@), r),
{
    let ghost views = cluster_views(clusters@);
    let mut counts: Vec<(Script, usize)> = Vec::new();
    let mut i: usize = 0;
    while i < clusters.len()
        invariant
            i <= clusters@.len(),
            views == cluster_views(clusters@),
            is_tally(counts@, views.take(i as int)),
        decreases clusters@.len() - i,
    {
        let script = clusters[i].script;
        let ghost seen = views.take(i as int);
        assert(views.take(i + 1) == seen.push(views[i as int]));
        if script != Script::Unknown {
            count_script(&mut counts, script, Ghost(seen));
        } else {
            assert(seen.push(views[i as int]).drop_last() == seen);
            assert(forall|s: Script|
                s != Script::Unknown ==> #[trigger] occurrences(views.take(i + 1), s)
                    == occurrences(seen, s));
        }
        i += 1;
    }
    assert(views.take(i as int) == views);
    let mut best = Script::Unknown;
    let mut best_count: usize = 0;
    let mut k: usize = 0;
    while k < counts.len()
        invariant
            k <= counts@.len(),
            is_tally(counts@, views),
            best == Script::Unknown ==> best_count == 0 && k == 0,
            best != Script::Unknown ==> best_count == occurrences(views, best) && best_count > 0,
            forall|j: int| 0 <= j < k ==> (#[trigger] counts@[j]).1 <= best_count,
        decreases counts@.len() - k,
    {
        if counts[k].1 > best_count {
            best = counts[k].0;
            best_count = counts[k].1;
        }
        k += 1;
    }
    proof {
        assert forall|other: Script| other != Script::Unknown implies #[trigger] occurrences(
            views,
            other,
        ) <= best_count by {
            if occurrences(views, other) > 0 {
                let j = choose|j: int| 0 <= j < counts@.len() && (#[trigger] counts@[j]).0 == other;
                assert(counts@[j].1 <= best_count);
            }
        }
        if best == Script::Unknown {
            assert forall|i: int| 0 <= i < views.len() implies (#[trigger] views[i]).script
                == Script::Unknown by {
                occurrences_are_clusters(views, views[i].script);
            }
        }
    }
    best
}

/// The script of a run of text: the most frequent known script of its clusters.
pub fn detect_script_run(text: &str) -> (r: Script)
    ensures
        is_majority(segments(text@), r),
{
    majority_script(&segment_text(text))
}

/// Clusters that all have one known script have that script, and no other answer is
/// right for them.
pub proof fn one_script_is_the_majority(clusters: Seq<ClusterView>, script: Script, answer: Script)
    requires
        clusters.len() > 0,
        script != Script::Unknown,
        forall|i: int| 0 <= i < clusters.len() ==> (#[trigger] clusters[i]).script == script,
    ensures
        is_majority(clusters, answer) <==> answer == script,
{
    occurrences_are_clusters(clusters, script);
    occurrences_are_clusters(clusters, answer);
    assert(clusters[0].script == script);
    assert forall|other: Script| other != script implies #[trigger] occurrences(clusters, other)
        == 0 by {
        occurrences_are_clusters(clusters, other);
    }
}

/// Graphemes gathered one more: a tall aa or aa, U+102B and U+102C, after a cluster of
/// the Myanmar script goes to that cluster, which keeps its script. Every other grapheme
/// is a cluster of its own, whatever script it or the cluster before is in.
pub proof fn one_more_grapheme(pieces: Seq<Seq<char>>, piece: Seq<char>)
    ensures
        ({
            let joins = |before: ClusterView, piece: Seq<char>| trails(before, piece);
            let before = gathered(pieces, joins);
            let after = gathered(pieces.push(piece), joins);
            if before.len() > 0 && before.last().script == Script::Myanmar && piece.len() > 0 && (
            piece[0] as int == 0x102B || piece[0] as int == 0x102C) {
                &&& after.len() == before.len()
                &&& after.last().text == before.last().text + piece
                &&& after.last().script == Script::Myanmar
                &&& after.drop_last() == before.drop_last()
            } else {
                &&& after.len() == before.len() + 1
                &&& after.last().text == piece
                &&& after.last().script == script_of(piece)
                &&& after.drop_last() == before
            }
        }),
{
    assert(pieces.push(piece).drop_last() == pieces);
    let joins = |before: ClusterView, piece: Seq<char>| trails(before, piece);
    let before = gathered(pieces, joins);
    let after = gathered(pieces.push(piece), joins);
    assert(after.drop_last() == if after.len() > before.len() {
        before
    } else {
        before.drop_last()
    });
}

/// Where no grapheme starts with a trailing vowel sign of the Myanmar script, U+102B or
/// U+102C, there are as many clusters as graphemes, and each has the text and the script
/// of its grapheme.
pub proof fn graphemes_stay_apart(pieces: Seq<Seq<char>>)
    requires
        forall|i: int|
            0 <= i < pieces.len() && (#[trigger] pieces[i]).len() > 0 ==> pieces[i][0] as int
                != 0x102B && pieces[i][0] as int != 0x102C,
    ensures
        ({
            let clusters = gathered(
                pieces,
                |before: ClusterView, piece: Seq<char>| trails(before, piece),
            );
            &&& clusters.len() == pieces.len()
            &&& forall|i: int|
                0 <= i < pieces.len() ==> {
                    &&& (#[trigger] clusters[i]).text == pieces[i]
                    &&& clusters[i].script == script_of(pieces[i])
                }
        }),
    decreases pieces.len(),
{
    if pieces.len() > 0 {
        let rest = pieces.drop_last();
        assert(forall|i: int| 0 <= i < rest.len() ==> rest[i] == pieces[i]);
        graphemes_stay_apart(rest);
        assert(pieces.last() == pieces[pieces.len() - 1]);
        one_more_grapheme(rest, pieces.last());
        assert(rest.push(pieces.last()) == pieces);
        let joins = |before: ClusterView, piece: Seq<char>| trails(before, piece);
        let before = gathered(rest, joins);
        let clusters = gathered(pieces, joins);
        assert(forall|i: int| 0 <= i < rest.len() ==> clusters.drop_last()[i] == clusters[i]);
    }
}

/// A text of whose graphemes none starts with a trailing vowel sign of the Myanmar
/// script, U+102B or U+102C, is cut into its graphemes.
pub proof fn a_text_is_cut_into_its_graphemes(text: Seq<char>)
    requires
        forall|i: int|
            0 <= i < graphemes_of(text).len() && (#[trigger] graphemes_of(text)[i]).len() > 0
                ==> graphemes_of(text)[i][0] as int != 0x102B && graphemes_of(text)[i][0] as int
                != 0x102C,
    ensures
        cluster_texts(segments(text)) == graphemes_of(text),
        forall|i: int|
            0 <= i < segments(text).len() ==> (#[trigger] segments(text)[i]).script == script_of(
                graphemes_of(text)[i],
            ),
{
    graphemes_stay_apart(graphemes_of(text));
}

/// The script of a piece is that of its first character, whatever follows; only an empty
/// piece and characters that the database knows no script for have the unknown one.
pub proof fn the_first_character_decides_the_script(ch: char, rest: Seq<char>)
    ensures
        script_of(seq![ch] + rest) == script_of(seq![ch]),
        script_of(seq![ch] + rest).iso_tag() == script_tag_of(ch),
        script_of(Seq::<char>::empty()) == Script::Unknown,
{
    tags_round_trip(script_tag_of(ch));
    assert((seq![ch] + rest)[0] == ch);
}

/// The number that four letters make, the first one highest.
pub open spec fn spelled(a: char, b: char, c: char, d: char) -> int {
    (a as int) * 0x100_0000 + (b as int) * 0x1_0000 + (c as int) * 0x100 + d as int
}

/// The scripts that have names have the tags Arab, Latn, Mymr, Syrc, Thaa and Zzzz, and
/// each of these tags names its script. Every other tag stands for itself.
pub proof fn tags_are_spelled_in_letters(tag: u32)
    ensures
        Script::Arabic.iso_tag() == spelled('A', 'r', 'a', 'b'),
        Script::Latin.iso_tag() == spelled('L', 'a', 't', 'n'),
        Script::Myanmar.iso_tag() == spelled('M', 'y', 'm', 'r'),
        Script::Syriac.iso_tag() == spelled('S', 'y', 'r', 'c'),
        Script::Thaana.iso_tag() == spelled('T', 'h', 'a', 'a'),
        Script::Unknown.iso_tag() == spelled('Z', 'z', 'z', 'z'),
        (Script::Other { tag }).iso_tag() == tag,
        Script::of_tag(tag) is Arabic <==> tag == spelled('A', 'r', 'a', 'b'),
        Script::of_tag(tag) is Latin <==> tag == spelled('L', 'a', 't', 'n'),
        Script::of_tag(tag) is Myanmar <==> tag == spelled('M', 'y', 'm', 'r'),
        Script::of_tag(tag) is Syriac <==> tag == spelled('S', 'y', 'r', 'c'),
        Script::of_tag(tag) is Thaana <==> tag == spelled('T', 'h', 'a', 'a'),
        Script::of_tag(tag) is Unknown <==> tag == spelled('Z', 'z', 'z', 'z'),
{
}

/// How often a script occurs is how many clusters have it. The script of a run is one
/// that as many clusters have as have any other known one, and it is unknown only where
/// no cluster has a known one.
pub proof fn the_majority_is_counted(clusters: Seq<ClusterView>, answer: Script, other: Script)
    requires
        is_majority(clusters, answer),
        other != Script::Unknown,
    ensures
        clusters.filter(|c: ClusterView| c.script == other).len() <= clusters.filter(
            |c: ClusterView| c.script == answer,
        ).len() || clusters.filter(|c: ClusterView| c.script == other).len() == 0,
        answer == Script::Unknown ==> clusters.filter(
            |c: ClusterView| c.script == other,
        ).len() == 0,
        answer != Script::Unknown ==> clusters.filter(
            |c: ClusterView| c.script == answer,
        ).len() > 0,
{
    occurrences_are_counted(clusters, other);
    occurrences_are_counted(clusters, answer);
    occurrences_are_clusters(clusters, other);
    occurrences_are_clusters(clusters, answer);
}

/// How often a script occurs is how many clusters have it.
pub proof fn occurrences_are_counted(clusters: Seq<ClusterView>, script: Script)
    ensures
        occurrences(clusters, script) == clusters.filter(
            |c: ClusterView| c.script == script,
        ).len(),
    decreases clusters.len(),
{
    reveal(Seq::filter);
    if clusters.len() > 0 {
        occurrences_are_counted(clusters.drop_last(), script);
    }
}

} // verus!
