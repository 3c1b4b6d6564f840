//! The albums of all users.
use crate::album::{add_all, has_room, pairs_view, tally_wf, texts, Album};
use vstd::prelude::*;

verus! {

/// Every user's album, each user at most once. Exclusive access (`&mut`)
/// makes each merge a single step: callers that share a store across tasks
/// hold it behind a lock.
pub struct Store {
    users: Vec<(String, Album)>,
}

impl Store {
    /// Whether `user` has an album.
    pub closed spec fn has_user(&self, user: Seq<char>) -> bool {
        exists|i: int| 0 <= i < self.users@.len() && self.users@[i].0@ == user
    }

    /// The album of `user`, or `None` if that user never drew.
    pub closed spec fn album_of(&self, user: Seq<char>) -> Option<Seq<(Seq<char>, usize)>> {
        if self.has_user(user) {
            let i = choose|i: int| 0 <= i < self.users@.len() && self.users@[i].0@ == user;
            Some(self.users@[i].1@)
        } else {
            None
        }
    }

    pub closed spec fn wf(&self) -> bool {
        &&& forall|i: int, j: int|
            0 <= i < self.users@.len() && 0 <= j < self.users@.len() && i != j
                ==> self.users@[i].0@ != self.users@[j].0@
        &&& forall|i: int| 0 <= i < self.users@.len() ==> (#[trigger] self.users@[i]).1.wf()
    }

    /// The album of `user` before a draw: empty when there is none yet.
    pub open spec fn album_or_empty(&self, user: Seq<char>) -> Seq<(Seq<char>, usize)> {
        match self.album_of(user) {
            Some(e) => e,
            None => Seq::empty(),
        }
    }

    /// Every album has distinct items and positive counts.
    pub open spec fn albums_wf(&self) -> bool {
        forall|u: Seq<char>| #[trigger] self.album_of(u) matches Some(e) ==> tally_wf(e)
    }

    /// A well-formed store holds well-formed albums.
    pub proof fn lemma_albums_wf(&self)
        requires
            self.wf(),
        ensures
            self.albums_wf(),
    {
        assert forall|u: Seq<char>| #[trigger] self.album_of(u) is Some implies tally_wf(
            self.album_of(u)->0,
        ) by {
            if self.has_user(u) {
                let i = choose|i: int| 0 <= i < self.users@.len() && self.users@[i].0@ == u;
                assert(self.users@[i].1.wf());
            }
        }
    }

    /// Whether `other` holds the same albums as `self`.
    pub open spec fn same_albums(&self, other: &Store) -> bool {
        forall|u: Seq<char>| #[trigger] self.album_of(u) == other.album_of(u)
    }

    /// A store with no albums.
    pub fn new() -> (r: Store)
        ensures
            r.wf(),
            r.albums_wf(),
            forall|u: Seq<char>| #[trigger] r.album_of(u) is None,
    {
        Store { users: Vec::new() }
    }

    /// The position of `user`, if it has an album.
    fn find(&self, user: &String) -> (r: Option<usize>)
        requires
            self.wf(),
        ensures
            match r {
                Some(i) => i < self.users@.len() && self.users@[i as int].0@ == user@,
                None => !self.has_user(user@),
            },
    {
        let mut i: usize = 0;
        while i < self.users.len()
            invariant
                i <= self.users@.len(),
                forall|j: int| 0 <= j < i ==> self.users@[j].0@ != user@,
            decreases self.users@.len() - i,
        {
            if self.users[i].0 == *user {
                return Some(i);
            }
            i = i + 1;
        }
        None
    }

    /// Records a draw of `items`, in order, for `user`, whose album is made
    /// (empty) first if it has none. When some count could overflow nothing
    /// changes and the result is `false`. Other users' albums are untouched.
    pub fn merge(&mut self, user: &String, items: &Vec<String>) -> (ok: bool)
        requires
            old(self).wf(),
        ensures
            final(self).wf(),
            final(self).albums_wf(),
            ok == has_room(old(self).album_or_empty(user@), items@.len() as int),
            ok ==> final(self).album_of(user@) == Some(
                add_all(old(self).album_or_empty(user@), texts(items@)),
            ),
            !ok ==> final(self).album_of(user@) == old(self).album_of(user@),
            forall|u: Seq<char>| u != user@ ==> #[trigger] final(self).album_of(u) == old(self).album_of(u),
    {
        let i = match self.find(user) {
            Some(i) => i,
            None => {
                self.users.push((user.clone(), Album::new()));
                assert(self.users@[self.users@.len() - 1].0@ == user@);
                (self.users.len() - 1) as usize
            },
        };
        let ghost mid = self.users@;
        assert(self.users@[i as int].1@ == old(self).album_or_empty(user@));
        let ok = self.users[i].1.merge(items);
        assert(forall|j: int| 0 <= j < self.users@.len() && j != i ==> self.users@[j] == mid[j]);
        assert forall|u: Seq<char>| u != user@ implies #[trigger] self.album_of(u) == old(self).album_of(u) by {
            if old(self).has_user(u) {
                let j = choose|j: int| 0 <= j < old(self).users@.len() && old(self).users@[j].0@ == u;
                assert(self.users@[j] == old(self).users@[j]);
                assert(self.has_user(u));
            }
            if self.has_user(u) {
                let j = choose|j: int| 0 <= j < self.users@.len() && self.users@[j].0@ == u;
                assert(j != i);
                assert(j < old(self).users@.len());
                assert(old(self).users@[j] == self.users@[j]);
                assert(old(self).has_user(u));
            }
        }
        proof {
            self.lemma_albums_wf();
        }
        ok
    }

    /// A copy of the album of `user`, its pairs in first-drawn order, or
    /// `None` if that user never drew.
    pub fn get(&self, user: &String) -> (r: Option<Vec<(String, usize)>>)
        requires
            self.wf(),
        ensures
            match r {
                Some(v) => self.album_of(user@) == Some(pairs_view(v@)) && tally_wf(pairs_view(v@)),
                None => self.album_of(user@) is None,
            },
    {
        proof {
            self.lemma_albums_wf();
        }
        match self.find(user) {
            Some(i) => Some(self.users[i].1.entries()),
            None => None,
        }
    }
}

} // verus!
