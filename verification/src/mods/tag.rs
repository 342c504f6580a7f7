//! Tags: named, ranked, coloured labels.

use super::{
    distinct_ids, fits_at, lemma_position_meaning, lemma_upsert_counts, lemma_upsert_keeps_distinct,
    lemma_upsert_keeps_sorted, position, same_rank, sorted, upsert_result, Item,
};
use crate::text::{codes, compare_text, text_le};
use crate::text::{lemma_lex_le_total, lemma_lex_le_transitive, lemma_text_le_antisymmetric};
use ratatui::style::Color;
use std::cmp::Ordering;
use std::hash::{Hash, Hasher};
use vstd::prelude::*;
use vstd::std_specs::cmp::PartialEqSpecImpl;

verus! {

/// A label for mods. Its name is its identity: two tags of one name are the
/// same tag, whatever their scores and colours.
#[derive(Debug)]
pub struct Tag {
    pub name: String,
    pub score: u64,
    pub color: Color,
}

impl Clone for Tag {
    fn clone(&self) -> (tag: Self)
        ensures
            tag == *self,
    {
        Tag { name: self.name.clone(), score: self.score, color: self.color }
    }
}

impl PartialEq for Tag {
    fn eq(&self, other: &Self) -> (same: bool) {
        self.name == other.name
    }
}

impl PartialEqSpecImpl for Tag {
    open spec fn obeys_eq_spec() -> bool {
        true
    }

    open spec fn eq_spec(&self, other: &Self) -> bool {
        self.name@ == other.name@
    }
}

impl Eq for Tag {

}

impl Hash for Tag {
    /// Feeds the name, and nothing else, to the hasher with `String::hash`.
    #[verifier::external_body]
    fn hash<H: Hasher>(&self, state: &mut H) {
        self.name.hash(state);
    }
}

impl Item for Tag {
    open spec fn id(&self) -> Seq<char> {
        self.name@
    }

    /// By score, and among tags of one score by name.
    open spec fn not_after(&self, other: &Self) -> bool {
        self.score < other.score || (self.score == other.score && text_le(self.name@, other.name@))
    }

    /// The name stays; score and colour are those of `other`.
    open spec fn patched(&self, other: &Self) -> Self {
        Tag { name: self.name, score: other.score, color: other.color }
    }

    proof fn lemma_order_total(a: &Self, b: &Self) {
        lemma_lex_le_total(codes(a.name@), codes(b.name@));
    }

    proof fn lemma_order_transitive(a: &Self, b: &Self, c: &Self) {
        if a.score == b.score && b.score == c.score {
            lemma_lex_le_transitive(codes(a.name@), codes(b.name@), codes(c.name@));
        }
    }

    proof fn lemma_patched_id(a: &Self, b: &Self) {
    }

    fn identifier(&self) -> (id: &str) {
        self.name.as_str()
    }

    fn patch(&mut self, other: Self) {
        let Tag { name: _, score, color } = other;
        self.score = score;
        self.color = color;
    }

    fn vec_order(&self, other: &Self) -> (o: Ordering) {
        if self.score < other.score {
            Ordering::Less
        } else if self.score > other.score {
            Ordering::Greater
        } else {
            compare_text(self.name.as_str(), other.name.as_str())
        }
    }
}

/// Tags of one rank have one score and one name: among tags the order
/// leaves nothing open but the colour.
pub proof fn lemma_tags_of_one_rank(a: Tag, b: Tag)
    requires
        same_rank(a, b),
    ensures
        a.score == b.score,
        a.name@ == b.name@,
{
    lemma_text_le_antisymmetric(a.name@, b.name@);
}

/// An upsert leaves tags in the order of their scores, tags of one score in
/// the order of their names, and leaves their names distinct. This holds of
/// tags that were so before, when the tag is new, or when the tag that it
/// patches still fits between its neighbours with its new score.
pub proof fn lemma_upsert_keeps_tags_ordered(before: Seq<Tag>, tag: Tag, after: Seq<Tag>)
    requires
        sorted(before),
        distinct_ids(before),
        upsert_result(before, tag, after),
        position(before, tag.name@) matches Some(i) ==> fits_at(before, i, before[i].patched(&tag)),
    ensures
        sorted(after),
        distinct_ids(after),
        forall|i: int, j: int|
            0 <= i < j < after.len() ==> {
                &&& #[trigger] after[i].score <= #[trigger] after[j].score
                &&& after[i].score == after[j].score ==> text_le(after[i].name@, after[j].name@)
                &&& after[i].name@ != after[j].name@
            },
{
    lemma_upsert_keeps_sorted(before, tag, after);
    lemma_upsert_keeps_distinct(before, tag, after);
    assert forall|i: int, j: int| 0 <= i < j < after.len() implies {
        &&& #[trigger] after[i].score <= #[trigger] after[j].score
        &&& after[i].score == after[j].score ==> text_le(after[i].name@, after[j].name@)
        &&& after[i].name@ != after[j].name@
    } by {
        assert(after[i].not_after(&after[j]));
        assert(after[i].id() != after[j].id());
    }
}

/// An upsert of a tag whose name the collection knows changes that tag
/// alone: it keeps its place and its name and takes the new score and
/// colour. The length stays.
pub proof fn lemma_upsert_known_tag(before: Seq<Tag>, tag: Tag, after: Seq<Tag>, at: int)
    requires
        upsert_result(before, tag, after),
        position(before, tag.name@) == Some(at),
    ensures
        after.len() == before.len(),
        0 <= at < after.len(),
        after[at].name == before[at].name,
        after[at].name@ == tag.name@,
        after[at].score == tag.score,
        after[at].color == tag.color,
        forall|i: int| 0 <= i < after.len() && i != at ==> #[trigger] after[i] == before[i],
{
    lemma_position_meaning(before, tag.name@);
}

/// An upsert of a tag whose name is new adds that tag once and keeps all
/// the others: the length grows by one.
pub proof fn lemma_upsert_new_tag(before: Seq<Tag>, tag: Tag, after: Seq<Tag>)
    requires
        upsert_result(before, tag, after),
        position(before, tag.name@) is None,
    ensures
        after.len() == before.len() + 1,
        after.to_multiset() == before.to_multiset().insert(tag),
        after.to_multiset().count(tag) == before.to_multiset().count(tag) + 1,
{
    lemma_upsert_counts(before, tag, after);
}

} // verus!
