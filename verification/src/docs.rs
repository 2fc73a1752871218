//! Checks that the event documentation names every topic with its cardinality.

use vstd::prelude::*;

use crate::text::{chars_of, contains, contains_seq, occurs_at};

verus! {

/// `prefix`, then `core`, then `suffix`.
fn wrapped(prefix: &str, core: &[char], suffix: &str) -> (r: Vec<char>)
    ensures
        r@ == prefix@ + core@ + suffix@,
{
    let mut r = chars_of(prefix);
    let ghost p = r@;
    let mut i: usize = 0;
    while i < core.len()
        invariant
            i <= core.len(),
            r@ =~= p + core@.take(i as int),
        decreases core.len() - i,
    {
        r.push(core[i]);
        i = i + 1;
    }
    let s = chars_of(suffix);
    let ghost q = r@;
    let mut j: usize = 0;
    while j < s.len()
        invariant
            j <= s.len(),
            r@ =~= q + s@.take(j as int),
        decreases s.len() - j,
    {
        r.push(s[j]);
        j = j + 1;
    }
    assert(core@.take(core@.len() as int) =~= core@);
    assert(s@.take(s@.len() as int) =~= s@);
    r
}

/// Whatever contains `prefix + core + suffix` contains `core`.
pub proof fn lemma_contains_inner(hay: Seq<char>, prefix: Seq<char>, core: Seq<char>, suffix: Seq<char>)
    requires
        contains(hay, prefix + core + suffix),
    ensures
        contains(hay, core),
{
    let w = prefix + core + suffix;
    let i = choose|i: int| occurs_at(hay, w, i);
    let j = i + prefix.len();
    assert(hay.subrange(j, j + core.len()) =~= w.subrange(prefix.len() as int, (prefix.len() + core.len()) as int));
    assert(w.subrange(prefix.len() as int, (prefix.len() + core.len()) as int) =~= core);
    assert(occurs_at(hay, core, j));
}

/// Whether the documentation names `topic`: as `"topic"`, as `` `topic` ``,
/// as the first element of a topic list, or anywhere else. Each of the
/// first forms contains the topic, so the answer is whether the text
/// contains the topic at all.
pub fn is_topic_documented(doc: &[char], topic: &str) -> (r: bool)
    ensures
        r == contains(doc@, topic@),
{
    let t = chars_of(topic);
    let patterns = [wrapped("\"", &t, "\""), wrapped("`", &t, "`"), wrapped("[\"", &t, "\"")];
    let mut k: usize = 0;
    while k < 3
        invariant
            k <= 3,
            t@ == topic@,
            patterns@[0]@ == "\""@ + topic@ + "\""@,
            patterns@[1]@ == "`"@ + topic@ + "`"@,
            patterns@[2]@ == "[\""@ + topic@ + "\""@,
        decreases 3 - k,
    {
        if contains_seq(doc, &patterns[k]) {
            proof {
                if k == 0 {
                    lemma_contains_inner(doc@, "\""@, topic@, "\""@);
                } else if k == 1 {
                    lemma_contains_inner(doc@, "`"@, topic@, "`"@);
                } else {
                    lemma_contains_inner(doc@, "[\""@, topic@, "\""@);
                }
            }
            return true;
        }
        k = k + 1;
    }
    contains_seq(doc, &t)
}

/// What the documentation says about the number of topic elements of an event.
#[derive(Clone, Copy, Debug, PartialEq, Eq)]
pub enum CardinalityFinding {
    /// The topic does not occur in the documentation.
    NotDocumented,
    /// A single-element topic is documented only with elements after the symbol.
    SingleDocumentedAsMulti,
    /// A multi-element topic is documented only as a single-element list.
    MultiDocumentedAsSingle,
    /// The documentation agrees with the expected cardinality.
    Consistent,
}

/// The marker of a single-element topic list: `` `"topic"]` ``.
pub open spec fn single_marker(topic: Seq<char>) -> Seq<char> {
    "`\""@ + topic + "\"]`"@
}

/// The marker of a topic list that goes on after the symbol: `"topic",`.
pub open spec fn multi_marker(topic: Seq<char>) -> Seq<char> {
    "\""@ + topic + "\","@
}

/// What the documentation `doc` says of `topic`, expected to have `expected`
/// topic elements: a single-element topic documented only with a comma
/// after its symbol, or a multi-element topic documented only as a closed
/// one-element list, is flagged.
pub open spec fn cardinality_finding(doc: Seq<char>, topic: Seq<char>, expected: nat) -> CardinalityFinding {
    if !contains(doc, topic) {
        CardinalityFinding::NotDocumented
    } else {
        let single = contains(doc, single_marker(topic));
        let multi = contains(doc, multi_marker(topic));
        if expected == 1 && multi && !single {
            CardinalityFinding::SingleDocumentedAsMulti
        } else if expected >= 2 && !multi && single {
            CardinalityFinding::MultiDocumentedAsSingle
        } else {
            CardinalityFinding::Consistent
        }
    }
}

/// How the documentation of a topic is judged against its expected number of
/// topic elements `expected`: a topic that the text never names is
/// undocumented; otherwise a topic of two or more elements (whatever their
/// number) that is written only as a closed one-element list `` `"topic"]` ``,
/// and never as a list going on after the symbol (`"topic",`), is flagged; a
/// one-element topic written only in the second way is flagged; anything else
/// is consistent.
pub proof fn lemma_cardinality_findings(doc: Seq<char>, topic: Seq<char>, expected: nat)
    ensures
        !contains(doc, topic) <==> cardinality_finding(doc, topic, expected)
            == CardinalityFinding::NotDocumented,
        cardinality_finding(doc, topic, expected) == CardinalityFinding::MultiDocumentedAsSingle
            <==> (contains(doc, topic) && expected >= 2 && contains(doc, "`\""@ + topic + "\"]`"@)
            && !contains(doc, "\""@ + topic + "\","@)),
        cardinality_finding(doc, topic, expected) == CardinalityFinding::SingleDocumentedAsMulti
            <==> (contains(doc, topic) && expected == 1 && contains(doc, "\""@ + topic + "\","@)
            && !contains(doc, "`\""@ + topic + "\"]`"@)),
{
}

/// For a topic of two or more elements the finding does not depend on how
/// many there are.
pub proof fn lemma_multi_findings_agree(doc: Seq<char>, topic: Seq<char>, j: nat, k: nat)
    requires
        j >= 2,
        k >= 2,
    ensures
        cardinality_finding(doc, topic, j) == cardinality_finding(doc, topic, k),
{
}

/// What the documentation says of `topic`, expected to have `expected` topic elements.
pub fn check_topic_cardinality(doc: &[char], topic: &str, expected: usize) -> (r: CardinalityFinding)
    ensures
        r == cardinality_finding(doc@, topic@, expected as nat),
{
    let t = chars_of(topic);
    let table = [wrapped("| `", &t, "` |"), wrapped("| `\"", &t, "\"`"), wrapped("`", &t, "`")];
    let mut found = false;
    let mut k: usize = 0;
    while k < 3
        invariant
            k <= 3,
            t@ == topic@,
            table@[0]@ == "| `"@ + topic@ + "` |"@,
            table@[1]@ == "| `\""@ + topic@ + "\"`"@,
            table@[2]@ == "`"@ + topic@ + "`"@,
            found ==> contains(doc@, topic@),
        decreases 3 - k,
    {
        if !found && contains_seq(doc, &table[k]) {
            proof {
                if k == 0 {
                    lemma_contains_inner(doc@, "| `"@, topic@, "` |"@);
                } else if k == 1 {
                    lemma_contains_inner(doc@, "| `\""@, topic@, "\"`"@);
                } else {
                    lemma_contains_inner(doc@, "`"@, topic@, "`"@);
                }
            }
            found = true;
        }
        k = k + 1;
    }
    if !found {
        found = contains_seq(doc, &t);
    }
    if !found {
        return CardinalityFinding::NotDocumented;
    }
    let single = contains_seq(doc, &wrapped("`\"", &t, "\"]`"));
    let multi = contains_seq(doc, &wrapped("\"", &t, "\","));
    if expected == 1 && multi && !single {
        CardinalityFinding::SingleDocumentedAsMulti
    } else if expected >= 2 && !multi && single {
        CardinalityFinding::MultiDocumentedAsSingle
    } else {
        CardinalityFinding::Consistent
    }
}

} // verus!
