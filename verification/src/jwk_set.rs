//! The published keys of one issuer, looked up by key id (`kid`).

use crate::algorithm::{algorithm_name, JwtAlgorithm};
use jsonwebtoken::DecodingKey;
use vstd::prelude::*;

verus! {

/// One published key: the algorithm it is used with and the key itself.
pub struct JwkInfo {
    pub alg: JwtAlgorithm,
    pub key: DecodingKey,
}

impl JwkInfo {
    /// A description for logs that shows the algorithm and hides the key:
    /// `DecodingKey { alg: RS256 }`.
    pub fn describe(&self) -> (r: String)
        ensures
            r@ == "DecodingKey { alg: "@ + algorithm_name(self.alg) + " }"@,
    {
        let mut r = "DecodingKey { alg: ".to_owned();
        r.append(self.alg.name());
        r.append(" }");
        r
    }
}

/// A map from key id to key. Each key id occurs at most once; inserting a
/// key id that is already present replaces its key.
pub struct JwkSet {
    entries: Vec<(String, JwkInfo)>,
}

impl JwkSet {
    /// The key ids, in the order in which they were first inserted.
    pub closed spec fn kids(&self) -> Seq<Seq<char>> {
        self.entries@.map_values(|e: (String, JwkInfo)| e.0@)
    }

    #[verifier::type_invariant]
    closed spec fn kids_are_distinct(&self) -> bool {
        self.kids().no_duplicates()
    }
}

impl View for JwkSet {
    type V = Map<Seq<char>, JwkInfo>;

    closed spec fn view(&self) -> Map<Seq<char>, JwkInfo> {
        Map::new(
            |k: Seq<char>| self.kids().contains(k),
            |k: Seq<char>| self.entries@[self.kids().index_of(k)].1,
        )
    }
}

impl JwkSet {
    /// An empty set of keys.
    pub fn new() -> (s: JwkSet)
        ensures
            s@ == Map::<Seq<char>, JwkInfo>::empty(),
    {
        let s = JwkSet { entries: Vec::new() };
        assert(s@ =~= Map::<Seq<char>, JwkInfo>::empty());
        s
    }

    /// Where `kid` stands among the entries.
    fn position(&self, kid: &String) -> (r: Option<usize>)
        ensures
            r matches Some(i) ==> i < self.entries@.len() && self.kids()[i as int] == kid@,
            r is None ==> !self.kids().contains(kid@),
    {
        let n = self.entries.len();
        let mut i: usize = 0;
        while i < n
            invariant
                n == self.entries@.len(),
                i <= n,
                forall|j: int| 0 <= j < i ==> self.kids()[j] != kid@,
            decreases n - i,
        {
            if self.entries[i].0 == *kid {
                return Some(i);
            }
            i = i + 1;
        }
        None
    }

    proof fn lemma_index_of_unique(&self, k: Seq<char>, i: int)
        requires
            self.kids_are_distinct(),
            0 <= i < self.kids().len(),
            self.kids()[i] == k,
        ensures
            self.kids().index_of(k) == i,
    {
        let j = self.kids().index_of(k);
        assert(self.kids().contains(k));
        assert(self.kids()[j] == k);
    }

    /// The key stored under `kid`, if any.
    pub fn get(&self, kid: &str) -> (r: Option<&JwkInfo>)
        ensures
            r is Some <==> self@.contains_key(kid@),
            r matches Some(info) ==> *info == self@[kid@],
    {
        proof {
            use_type_invariant(self);
        }
        let k = kid.to_owned();
        match self.position(&k) {
            Some(i) => {
                proof {
                    self.lemma_index_of_unique(kid@, i as int);
                }
                Some(&self.entries[i].1)
            },
            None => None,
        }
    }

    /// Whether a key is stored under `kid`.
    pub fn contains_key(&self, kid: &str) -> (r: bool)
        ensures
            r == self@.contains_key(kid@),
    {
        self.get(kid).is_some()
    }

    /// Stores `info` under `kid`, replacing any key stored there before.
    pub fn insert(&mut self, kid: String, info: JwkInfo)
        ensures
            final(self)@ == old(self)@.insert(kid@, info),
    {
        proof {
            use_type_invariant(&*self);
        }
        let ghost old_set = *self;
        let ghost k = kid@;
        let found = self.position(&kid);
        let mut entries = Vec::new();
        std::mem::swap(&mut entries, &mut self.entries);
        match found {
            Some(i) => {
                entries.set(i, (kid, info));
                let ghost new_set = JwkSet { entries };
                assert(new_set.kids() =~= old_set.kids());
                assert forall|q: Seq<char>| #[trigger] new_set@.contains_key(q) implies new_set@[q]
                    == old_set@.insert(k, info)[q] by {
                    let j = old_set.kids().index_of(q);
                    assert(old_set.kids().contains(q));
                    old_set.lemma_index_of_unique(q, j);
                    if q == k {
                        old_set.lemma_index_of_unique(k, i as int);
                    }
                }
                assert(new_set@ =~= old_set@.insert(k, info));
                self.entries = entries;
            },
            None => {
                entries.push((kid, info));
                let ghost new_set = JwkSet { entries };
                assert(new_set.kids() =~= old_set.kids().push(k));
                assert(new_set.kids_are_distinct());
                assert forall|q: Seq<char>| #[trigger] new_set@.contains_key(q) implies new_set@[q]
                    == old_set@.insert(k, info)[q] by {
                    let j = new_set.kids().index_of(q);
                    assert(new_set.kids().contains(q));
                    new_set.lemma_index_of_unique(q, j);
                    if q == k {
                        new_set.lemma_index_of_unique(k, old_set.kids().len() as int);
                    } else {
                        assert(old_set.kids()[j] == q);
                        old_set.lemma_index_of_unique(q, j);
                    }
                }
                assert forall|q: Seq<char>| #[trigger] new_set.kids().contains(q) <==> (
                old_set.kids().contains(q) || q == k) by {
                    if old_set.kids().contains(q) {
                        let j = old_set.kids().index_of(q);
                        assert(new_set.kids()[j] == q);
                    }
                    if q == k {
                        assert(new_set.kids()[old_set.kids().len() as int] == q);
                    }
                }
                assert(new_set@.dom() =~= old_set@.insert(k, info).dom());
                assert(new_set@ =~= old_set@.insert(k, info));
                self.entries = entries;
            },
        }
    }

    /// The number of keys.
    pub fn len(&self) -> (r: usize)
        ensures
            self@.dom().finite(),
            r == self@.dom().len(),
    {
        proof {
            use_type_invariant(self);
            self.kids().unique_seq_to_set();
            assert(self@.dom() =~= self.kids().to_set());
        }
        self.entries.len()
    }

    /// Whether there are no keys.
    pub fn is_empty(&self) -> (r: bool)
        ensures
            r == (self@ == Map::<Seq<char>, JwkInfo>::empty()),
    {
        proof {
            use_type_invariant(self);
        }
        let r = self.entries.len() == 0;
        if !r {
            assert(self@.contains_key(self.kids()[0]));
        } else {
            assert(self@ =~= Map::<Seq<char>, JwkInfo>::empty());
        }
        r
    }
}

} // verus!
