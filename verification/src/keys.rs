//! The store of keys a node holds: a set of texts.

use crate::text::texts;
use vstd::prelude::*;

verus! {

/// A finite set of keys, kept in the order in which they arrived.
pub struct KeySet {
    keys: Vec<String>,
}

impl View for KeySet {
    type V = Set<Seq<char>>;

    closed spec fn view(&self) -> Set<Seq<char>> {
        texts(self.keys@).to_set()
    }
}

impl KeySet {
    /// No key is stored twice.
    pub closed spec fn wf(&self) -> bool {
        texts(self.keys@).no_duplicates()
    }

    /// The keys in the order in which they were first inserted.
    pub closed spec fn listing(&self) -> Seq<Seq<char>> {
        texts(self.keys@)
    }

    /// The listing holds each key of the set once, and nothing else.
    pub proof fn lemma_listing(&self)
        requires
            self.wf(),
        ensures
            self.listing().no_duplicates(),
            self.listing().to_set() == self@,
            self@.finite(),
            self@.len() == self.listing().len(),
    {
        self.listing().unique_seq_to_set();
        vstd::seq_lib::seq_to_set_is_finite(self.listing());
    }

    /// The empty set.
    pub fn new() -> (set: Self)
        ensures
            set.wf(),
            set@ == Set::<Seq<char>>::empty(),
            set.listing() == Seq::<Seq<char>>::empty(),
    {
        let set = KeySet { keys: Vec::new() };
        assert(texts(set.keys@) =~= Seq::<Seq<char>>::empty());
        assert(set@ =~= Set::<Seq<char>>::empty());
        set
    }

    /// Whether `key` is in the set.
    pub fn contains(&self, key: &String) -> (found: bool)
        ensures
            found == self@.contains(key@),
    {
        let mut i: usize = 0;
        while i < self.keys.len()
            invariant
                i <= self.keys.len(),
                forall|j: int| 0 <= j < i ==> texts(self.keys@)[j] != key@,
            decreases self.keys.len() - i,
        {
            if self.keys[i] == *key {
                assert(texts(self.keys@)[i as int] == key@);
                return true;
            }
            i = i + 1;
        }
        false
    }

    /// Adds `key`; a key already present leaves the set as it was. Returns
    /// whether the key was new.
    pub fn insert(&mut self, key: String) -> (fresh: bool)
        requires
            old(self).wf(),
        ensures
            final(self).wf(),
            final(self)@ == old(self)@.insert(key@),
            fresh == !old(self)@.contains(key@),
            final(self).listing() == if fresh {
                old(self).listing().push(key@)
            } else {
                old(self).listing()
            },
    {
        if self.contains(&key) {
            assert(self@.insert(key@) =~= self@);
            false
        } else {
            let ghost before = texts(self.keys@);
            self.keys.push(key);
            assert(texts(self.keys@) =~= before.push(key@));
            proof {
                before.lemma_push_to_set_commute(key@);
            }
            true
        }
    }

    /// The number of keys.
    pub fn len(&self) -> (n: usize)
        ensures
            n == self.listing().len(),
    {
        self.keys.len()
    }

    /// A copy of the keys, in the order of the listing.
    pub fn to_vec(&self) -> (keys: Vec<String>)
        ensures
            texts(keys@) == self.listing(),
    {
        crate::text::clone_texts(&self.keys)
    }
}

} // verus!
