//! The set of users in a room: each user has a numeric id that is never
//! handed out twice.

use std::collections::hash_map::{Iter, IterMut};
use std::collections::HashMap;
use vstd::multiset::Multiset;
use vstd::prelude::*;
use vstd::std_specs::iter::IteratorSpec;

verus! {

broadcast use vstd::std_specs::hash::group_hash_axioms;

/// The mutable iterator over a `HashMap`'s entries.
#[verifier::external_type_specification]
#[verifier::external_body]
#[verifier::reject_recursive_types(K)]
#[verifier::reject_recursive_types(V)]
pub struct ExIterMut<'a, K: 'a, V: 'a>(IterMut<'a, K, V>);

/// Looks `id` up with `HashMap::get_mut`: a reference to the name stored under
/// `id` when there is one, and writing through it changes only that entry.
#[verifier::external_body]
fn names_get_mut<'a>(names: &'a mut HashMap<u64, String>, id: &u64) -> (name: Option<&'a mut String>)
    ensures
        match name {
            Some(n) => {
                &&& old(names)@.contains_key(*id)
                &&& *n == old(names)@[*id]
                &&& final(names)@ == old(names)@.insert(*id, *final(n))
            },
            None => !old(names)@.contains_key(*id) && final(names)@ == old(names)@,
        },
{
    names.get_mut(id)
}

/// The (key, value) pairs, as plain values, that a mutable map iterator has
/// still to hand out, without their order.
pub uninterp spec fn entries_to_visit(entries: IterMut<'_, u64, String>) -> Multiset<(u64, Seq<char>)>;

/// Walks the entries with `HashMap::iter_mut`: the iterator hands out every
/// entry of the map exactly once, with its current value. Writing through it
/// changes values only, so the set of keys stays the same; nothing is stated
/// of the order or of the values written.
#[verifier::external_body]
fn names_iter_mut<'a>(names: &'a mut HashMap<u64, String>) -> (entries: IterMut<'a, u64, String>)
    ensures
        forall|k: u64, v: Seq<char>|
            #[trigger] entries_to_visit(entries).count((k, v)) == if old(names)@.contains_key(k)
                && old(names)@[k]@ == v {
                1nat
            } else {
                0nat
            },
        final(names)@.dom() == old(names)@.dom(),
{
    names.iter_mut()
}

/// Whether some user in `users` is called `username`.
pub open spec fn name_in_use(users: Map<u64, Seq<char>>, username: Seq<char>) -> bool {
    exists|id: u64| #[trigger] users.contains_key(id) && users[id] == username
}

/// A name is in use when a user in the room has exactly that name.
pub proof fn equal_name_is_in_use(users: Map<u64, Seq<char>>, id: u64, username: Seq<char>)
    requires
        users.contains_key(id),
        users[id] == username,
    ensures
        name_in_use(users, username),
{
}

/// A name that differs from the name of every user in the room is free: a join
/// under it is admitted.
pub proof fn different_name_is_free(users: Map<u64, Seq<char>>, username: Seq<char>)
    requires
        forall|id: u64| #[trigger] users.contains_key(id) ==> users[id] != username,
    ensures
        !name_in_use(users, username),
{
}

/// No two users share a name.
pub open spec fn names_are_distinct(users: Map<u64, Seq<char>>) -> bool {
    forall|a: u64, b: u64|
        #[trigger] users.contains_key(a) && #[trigger] users.contains_key(b) && users[a] == users[b]
            ==> a == b
}

/// The users in a room, keyed by id, with the id the next user will get.
#[derive(Debug)]
pub struct UserSet {
    users: HashMap<u64, String>,
    next_id: u64,
}

impl View for UserSet {
    type V = Map<u64, Seq<char>>;

    /// Each user's id mapped to the characters of their name.
    closed spec fn view(&self) -> Map<u64, Seq<char>> {
        self.users@.map_values(|name: String| name@)
    }
}

impl UserSet {
    /// The id that the next inserted user will get.
    pub closed spec fn next_free_id(&self) -> u64 {
        self.next_id
    }

    /// Every id in use is below the next free id, so no id is handed out twice.
    pub open spec fn wf(&self) -> bool {
        forall|id: u64| #[trigger] self@.contains_key(id) ==> id < self.next_free_id()
    }

    /// An empty set whose first user will get id 0.
    pub fn new() -> (s: UserSet)
        ensures
            s.wf(),
            s@ == Map::<u64, Seq<char>>::empty(),
            s.next_free_id() == 0,
    {
        let s = UserSet { users: HashMap::new(), next_id: 0 };
        assert(s@ =~= Map::<u64, Seq<char>>::empty());
        s
    }

    /// A set holding exactly `users`, whose next user will get `next_id`
    /// (as received from the server, for instance).
    pub fn from_entries(users: HashMap<u64, String>, next_id: u64) -> (s: UserSet)
        ensures
            s@ == users@.map_values(|name: String| name@),
            s.next_free_id() == next_id,
    {
        UserSet { users, next_id }
    }

    /// The id that the next inserted user will get.
    pub fn next_id(&self) -> (id: u64)
        ensures
            id == self.next_free_id(),
    {
        self.next_id
    }

    /// Adds `username` under the next free id and returns that id.
    pub fn insert(&mut self, username: String) -> (id: u64)
        requires
            old(self).next_free_id() < u64::MAX,
        ensures
            id == old(self).next_free_id(),
            final(self)@ == old(self)@.insert(id, username@),
            final(self).next_free_id() == id + 1,
            old(self).wf() ==> !old(self)@.contains_key(id) && final(self).wf(),
    {
        let id: u64 = self.next_id;
        let ghost name = username@;
        self.users.insert(id, username);
        self.next_id = self.next_id + 1;
        assert(self@ =~= old(self)@.insert(id, name));
        id
    }

    /// Removes the user with id `id`, returning their name if there was one.
    pub fn remove(&mut self, id: &u64) -> (name: Option<String>)
        ensures
            final(self)@ == old(self)@.remove(*id),
            final(self).next_free_id() == old(self).next_free_id(),
            old(self).wf() ==> final(self).wf(),
            match name {
                Some(n) => old(self)@.contains_key(*id) && n@ == old(self)@[*id],
                None => !old(self)@.contains_key(*id),
            },
    {
        let name = self.users.remove(id);
        assert(self@ =~= old(self)@.remove(*id));
        name
    }

    /// The name of the user with id `id`, if there is one.
    pub fn get(&self, id: &u64) -> (name: Option<&String>)
        ensures
            match name {
                Some(n) => self@.contains_key(*id) && n@ == self@[*id],
                None => !self@.contains_key(*id),
            },
    {
        self.users.get(id)
    }

    /// A writable reference to the name of the user with id `id`, if there is
    /// one; writing through it renames that user and changes nothing else.
    pub fn get_mut(&mut self, id: &u64) -> (name: Option<&mut String>)
        ensures
            final(self).next_free_id() == old(self).next_free_id(),
            match name {
                Some(n) => {
                    &&& old(self)@.contains_key(*id)
                    &&& n@ == old(self)@[*id]
                    &&& final(self)@ == old(self)@.insert(*id, final(n)@)
                },
                None => !old(self)@.contains_key(*id) && final(self)@ == old(self)@,
            },
            old(self).wf() ==> final(self).wf(),
    {
        names_get_mut(&mut self.users, id)
    }

    /// Walks the users as (id, writable name) pairs, each user exactly once
    /// with their current name. Renaming through the iterator keeps the same
    /// ids, so the set stays well formed.
    pub fn iter_mut(&mut self) -> (entries: IterMut<'_, u64, String>)
        ensures
            forall|id: u64, name: Seq<char>|
                #[trigger] entries_to_visit(entries).count((id, name)) == if old(self)@.contains_key(id)
                    && old(self)@[id] == name {
                    1nat
                } else {
                    0nat
                },
            final(self)@.dom() == old(self)@.dom(),
            final(self).next_free_id() == old(self).next_free_id(),
            old(self).wf() ==> final(self).wf(),
    {
        names_iter_mut(&mut self.users)
    }

    /// Whether some user in the set is called `username`.
    pub fn contains_username(&self, username: &String) -> (found: bool)
        ensures
            found == name_in_use(self@, username@),
    {
        let ghost all = vstd::std_specs::hash::spec_hash_map_iter(&self.users).remaining();
        for entry in it: self.users.iter()
            invariant
                it.seq() == all,
                forall|i: int| 0 <= i < it.index() ==> (*all[i].1)@ != username@,
        {
            let (_, other) = entry;
            if *other == *username {
                proof {
                    assert(self@.contains_key(*entry.0));
                    assert(self@[*entry.0] == username@);
                }
                return true;
            }
        }
        proof {
            assert(forall|i: int| 0 <= i < all.len() ==> (*all[i].1)@ != username@);
            assert forall|id: u64| self@.contains_key(id) implies self@[id] != username@ by {
                assert(self.users@.contains_key(id));
                assert(all.contains((&id, &self.users@[id])));
                let i = choose|i: int| 0 <= i < all.len() && all[i] == (&id, &self.users@[id]);
                assert((*all[i].1)@ != username@);
            }
        }
        false
    }

    /// Walks the users as (id, name) pairs, each user exactly once, in the
    /// map's own order.
    pub fn iter(&self) -> (entries: Iter<'_, u64, String>)
        ensures
            entries.remaining().len() == self@.len(),
            forall|i: int|
                0 <= i < entries.remaining().len() ==> {
                    let (id, name) = #[trigger] entries.remaining()[i];
                    self@.contains_key(*id) && self@[*id] == name@
                },
            forall|i: int, j: int|
                0 <= i < entries.remaining().len() && 0 <= j < entries.remaining().len() && i != j
                    ==> *entries.remaining()[i].0 != *entries.remaining()[j].0,
            forall|id: u64|
                #[trigger] self@.contains_key(id) ==> exists|i: int|
                    0 <= i < entries.remaining().len() && *entries.remaining()[i].0 == id,
    {
        let entries = self.users.iter();
        proof {
            let v = entries.remaining();
            assert(self@.dom() =~= self.users@.dom());
            assert forall|id: u64| #[trigger] self@.contains_key(id) implies exists|i: int|
                0 <= i < v.len() && *v[i].0 == id by {
                assert(self.users@.contains_key(id));
                assert(v.contains((&id, &self.users@[id])));
                let i = choose|i: int| 0 <= i < v.len() && v[i] == (&id, &self.users@[id]);
                assert(*v[i].0 == id);
            }
            assert forall|i: int, j: int|
                0 <= i < v.len() && 0 <= j < v.len() && i != j implies *v[i].0 != *v[j].0 by {
                if *v[i].0 == *v[j].0 {
                    assert(self.users@[*v[i].0] == *v[i].1);
                    assert(self.users@[*v[j].0] == *v[j].1);
                    assert(v[i] == v[j]);
                }
            }
        }
        entries
    }
}

/// Ids are never handed out twice: in a well-formed set every id in use is
/// below the next free id, so the id the next insert returns is not in use,
/// and every id that an earlier insert returned is below it (inserts move the
/// next free id up by one, and nothing else moves it).
pub proof fn ids_in_use_are_below_next(users: &UserSet, id: u64)
    requires
        users.wf(),
        users@.contains_key(id),
    ensures
        id < users.next_free_id(),
        !users@.contains_key(users.next_free_id()),
{
}

/// What the server keeps about its room: the users and the counter of the
/// last chat message it relayed.
pub struct Data {
    pub users: UserSet,
    pub counter: u64,
}

impl Data {
    /// The users are well formed and no two of them share a name.
    pub open spec fn wf(&self) -> bool {
        &&& self.users.wf()
        &&& names_are_distinct(self.users@)
    }

    /// An empty room with the counter at 0.
    pub fn new() -> (data: Data)
        ensures
            data.wf(),
            data.users@ == Map::<u64, Seq<char>>::empty(),
            data.users.next_free_id() == 0,
            data.counter == 0,
    {
        Data { users: UserSet::new(), counter: 0 }
    }
}

impl Clone for UserSet {
    /// A copy with the same users and the same next free id.
    fn clone(&self) -> (copy: Self)
        ensures
            copy@ == self@,
            copy.next_free_id() == self.next_free_id(),
            self.wf() ==> copy.wf(),
    {
        UserSet { users: self.users.clone(), next_id: self.next_id }
    }
}

} // verus!
