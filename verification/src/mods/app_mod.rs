//! Mods as the catalogue holds them: what a mod says of itself, and the
//! tags attached to it.

use super::game::ModMetaData;
use super::tag::Tag;
use super::{sorted, stable_sorted, upsert_result, Item, OrderedVec};
use crate::text::{codes, compare_text, lex_le, text_le};
use crate::text::{
    lemma_lex_le_antisymmetric, lemma_lex_le_reflexive, lemma_lex_le_skip, lemma_lex_le_total,
    lemma_lex_le_transitive,
};
use std::cmp::Ordering;
use vstd::prelude::*;

verus! {

/// A mod of the catalogue.
#[derive(Clone, Debug)]
pub struct Mod {
    pub metadata: ModMetaData,
    tags: OrderedVec<Tag>,
}

/// The scores of `tags`, in the order of the tags.
pub open spec fn scores(tags: Seq<Tag>) -> Seq<int> {
    Seq::new(tags.len(), |i: int| tags[i].score as int)
}

/// `after` is `before` with `tag` upserted into its tags.
pub open spec fn tag_attached(before: Mod, tag: Tag, after: Mod) -> bool {
    &&& after.metadata() == before.metadata()
    &&& upsert_result(before.tags()@, tag, after.tags()@)
}

/// How the scores of `a` stand to those of `b`: whether they are not after
/// them, and whether those of `b` are not after them.
fn rank_scores(a: &OrderedVec<Tag>, b: &OrderedVec<Tag>) -> (r: (bool, bool))
    ensures
        r.0 == lex_le(scores(a@), scores(b@)),
        r.1 == lex_le(scores(b@), scores(a@)),
{
    let ghost sa = scores(a@);
    let ghost sb = scores(b@);
    let mut i: usize = 0;
    while i < a.len() && i < b.len()
        invariant
            i <= a@.len(),
            i <= b@.len(),
            sa == scores(a@),
            sb == scores(b@),
            sa.take(i as int) == sb.take(i as int),
        decreases a@.len() - i,
    {
        let x = a.get(i).unwrap().score;
        let y = b.get(i).unwrap().score;
        if x != y {
            proof {
                lemma_lex_le_skip(sa, sb, i as int);
                lemma_lex_le_skip(sb, sa, i as int);
                assert(sa.skip(i as int)[0] == x);
                assert(sb.skip(i as int)[0] == y);
            }
            return (x < y, y < x);
        }
        proof {
            assert(sa.take(i + 1) =~= sa.take(i as int).push(x as int));
            assert(sb.take(i + 1) =~= sb.take(i as int).push(y as int));
        }
        i = i + 1;
    }
    proof {
        lemma_lex_le_skip(sa, sb, i as int);
        lemma_lex_le_skip(sb, sa, i as int);
    }
    (i == a.len(), i == b.len())
}

impl Mod {
    /// The tags attached to the mod.
    pub closed spec fn spec_tags(&self) -> &OrderedVec<Tag> {
        &self.tags
    }

    /// What the mod says of itself.
    pub closed spec fn spec_metadata(&self) -> &ModMetaData {
        &self.metadata
    }

    /// A mod without tags.
    pub fn new(metadata: ModMetaData) -> (m: Self)
        ensures
            m.metadata() == metadata,
            m.tags()@ == Seq::<Tag>::empty(),
    {
        Self { metadata, tags: OrderedVec::default() }
    }

    /// A mod with `tags` attached.
    pub fn with_tags(metadata: ModMetaData, tags: OrderedVec<Tag>) -> (m: Self)
        ensures
            m.metadata() == metadata,
            m.tags() == tags,
    {
        Self { metadata, tags }
    }

    /// What the mod says of itself.
    #[verifier::when_used_as_spec(spec_metadata)]
    pub fn metadata(&self) -> (metadata: &ModMetaData)
        ensures
            metadata == self.spec_metadata(),
    {
        &self.metadata
    }

    /// The tags attached to the mod.
    #[verifier::when_used_as_spec(spec_tags)]
    pub fn tags(&self) -> (tags: &OrderedVec<Tag>)
        ensures
            tags == self.spec_tags(),
    {
        &self.tags
    }
}

impl Item for Mod {
    open spec fn id(&self) -> Seq<char> {
        self.metadata().package_id@
    }

    /// Mods with tags come before mods without. Mods with tags stand by the
    /// scores of their tags, compared as sequences. Mods that this leaves
    /// equal stand by name.
    open spec fn not_after(&self, other: &Self) -> bool {
        let mine = scores(self.tags()@);
        let theirs = scores(other.tags()@);
        if mine.len() == 0 && theirs.len() > 0 {
            false
        } else if mine.len() > 0 && theirs.len() == 0 {
            true
        } else if mine == theirs {
            text_le(self.metadata().name@, other.metadata().name@)
        } else {
            lex_le(mine, theirs)
        }
    }

    /// All of `other`.
    open spec fn patched(&self, other: &Self) -> Self {
        *other
    }

    proof fn lemma_order_total(a: &Self, b: &Self) {
        lemma_lex_le_total(scores(a.tags()@), scores(b.tags()@));
        lemma_lex_le_total(codes(a.metadata().name@), codes(b.metadata().name@));
    }

    proof fn lemma_order_transitive(a: &Self, b: &Self, c: &Self) {
        let sa = scores(a.tags()@);
        let sb = scores(b.tags()@);
        let sc = scores(c.tags()@);
        lemma_lex_le_reflexive(sa);
        lemma_lex_le_reflexive(sb);
        if (sa.len() == 0) == (sb.len() == 0) && (sb.len() == 0) == (sc.len() == 0) {
            lemma_lex_le_transitive(sa, sb, sc);
            if sa == sc {
                lemma_lex_le_antisymmetric(sa, sb);
                lemma_lex_le_transitive(
                    codes(a.metadata().name@),
                    codes(b.metadata().name@),
                    codes(c.metadata().name@),
                );
            }
        }
    }

    proof fn lemma_patched_id(a: &Self, b: &Self) {
    }

    fn identifier(&self) -> (id: &str) {
        self.metadata.package_id.as_str()
    }

    fn patch(&mut self, other: Self) {
        *self = other;
    }

    fn vec_order(&self, other: &Self) -> (o: Ordering) {
        let ghost mine = scores(self.tags()@);
        let ghost theirs = scores(other.tags()@);
        proof {
            lemma_lex_le_reflexive(mine);
            lemma_lex_le_total(mine, theirs);
            assert(mine.len() == self.tags()@.len());
            assert(theirs.len() == other.tags()@.len());
        }
        match (self.tags.get(0), other.tags.get(0)) {
            (None, None) => {
                proof {
                    assert(mine =~= theirs);
                }
                compare_text(self.metadata.name.as_str(), other.metadata.name.as_str())
            },
            (None, Some(_)) => Ordering::Greater,
            (Some(_), None) => Ordering::Less,
            (Some(_), Some(_)) => {
                let (le, ge) = rank_scores(&self.tags, &other.tags);
                if le && ge {
                    proof {
                        lemma_lex_le_antisymmetric(mine, theirs);
                    }
                    compare_text(self.metadata.name.as_str(), other.metadata.name.as_str())
                } else if le {
                    Ordering::Less
                } else {
                    Ordering::Greater
                }
            },
        }
    }
}

impl OrderedVec<Mod> {
    /// Upserts `tag` into the tags of the mod at `mod_idx`, then puts the
    /// mods back in order, since the tags of a mod decide where it stands.
    pub fn upsert_tag_to(&mut self, mod_idx: usize, tag: Tag)
        requires
            mod_idx < old(self)@.len(),
        ensures
            sorted(final(self)@),
            final(self)@.len() == old(self)@.len(),
            exists|m: Mod| #[trigger]
                tag_attached(old(self)@[mod_idx as int], tag, m) && final(self)@ == stable_sorted(
                    old(self)@.update(mod_idx as int, m),
                ),
    {
        self.get_mut(mod_idx).unwrap().tags.upsert(tag);
        proof {
            assert(tag_attached(old(self)@[mod_idx as int], tag, self@[mod_idx as int]));
            assert(self@ =~= old(self)@.update(mod_idx as int, self@[mod_idx as int]));
        }
        self.force_resort();
    }
}

} // verus!
