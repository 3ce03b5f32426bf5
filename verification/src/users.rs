//! A user repository on top of any [`Storage`], in two flavours: one generic
//! over the storage type, one holding the storage behind a trait object.
//! Both keep users by id, refuse to add an id twice and refuse to update an
//! id that is not there.

use crate::storage::{HashMapStorage, Storage, StorageCall};
use std::borrow::Cow;
use vstd::prelude::*;

verus! {

#[derive(Debug, PartialEq, Eq)]
pub struct User {
    pub id: u64,
    pub email: Cow<'static, str>,
    pub activated: bool,
}

impl Clone for User {
    fn clone(&self) -> (r: Self)
        ensures
            r == *self,
    {
        let email = match &self.email {
            Cow::Borrowed(s) => Cow::Borrowed(*s),
            Cow::Owned(s) => Cow::Owned(s.clone()),
        };
        User { id: self.id, email, activated: self.activated }
    }
}

/// The users a repository holds, by id.
pub type Users = Map<u64, User>;

/// Adding `u`: refused (and nothing changes) where its id is taken,
/// otherwise `u` is stored under its id.
pub open spec fn add_outcome(m: Users, u: User) -> (Users, bool) {
    if m.contains_key(u.id) {
        (m, false)
    } else {
        (m.insert(u.id, u), true)
    }
}

/// Updating with `u`: refused (and nothing changes) where its id is not
/// there, otherwise `u` replaces the user with that id.
pub open spec fn update_outcome(m: Users, u: User) -> (Users, bool) {
    if m.contains_key(u.id) {
        (m.insert(u.id, u), true)
    } else {
        (m, false)
    }
}

/// What a lookup of `id` gives.
pub open spec fn lookup(m: Users, id: u64) -> Option<User> {
    if m.contains_key(id) {
        Some(m[id])
    } else {
        None
    }
}

/// Read after write: a user that was added is found under its id.
pub proof fn law_added_user_is_found(m: Users, u: User)
    ensures
        add_outcome(m, u).1 ==> lookup(add_outcome(m, u).0, u.id) == Some(u),
{
}

/// An id is added at most once: a second add of the same id is refused and
/// changes nothing, whatever the second user holds.
pub proof fn law_second_add_is_refused(m: Users, u: User, v: User)
    requires
        u.id == v.id,
    ensures
        !add_outcome(add_outcome(m, u).0, v).1,
        add_outcome(add_outcome(m, u).0, v).0 == add_outcome(m, u).0,
{
}

/// An update never creates a user: the set of ids stays the same, and a
/// successful update is found under its id.
pub proof fn law_update_keeps_ids(m: Users, u: User)
    ensures
        update_outcome(m, u).0.dom() == m.dom(),
        update_outcome(m, u).1 <==> m.contains_key(u.id),
        update_outcome(m, u).1 ==> lookup(update_outcome(m, u).0, u.id) == Some(u),
{
}

/// Removing what was just added gives the user back and restores the
/// repository as it was.
pub proof fn law_add_then_remove_restores(m: Users, u: User)
    requires
        !m.contains_key(u.id),
    ensures
        lookup(add_outcome(m, u).0, u.id) == Some(u),
        add_outcome(m, u).0.remove(u.id) == m,
{
    assert(add_outcome(m, u).0.remove(u.id) =~= m);
}

/// After a remove the id is gone.
pub proof fn law_removed_is_gone(m: Users, id: u64)
    ensures
        lookup(m.remove(id), id) is None,
{
}

/// Each operation touches only the id it is about: every other id is looked
/// up as before.
pub proof fn law_other_ids_untouched(m: Users, u: User, id: u64)
    requires
        id != u.id,
    ensures
        lookup(add_outcome(m, u).0, id) == lookup(m, id),
        lookup(update_outcome(m, u).0, id) == lookup(m, id),
        lookup(m.remove(u.id), id) == lookup(m, id),
{
}

/// A repository whose storage type is a type parameter.
pub struct UserRepositoryStatic<S> where S: Storage<u64, User> {
    pub storage: S,
}

impl<S> UserRepositoryStatic<S> where S: Storage<u64, User> {
    pub open spec fn users(&self) -> Users {
        self.storage.contents()
    }

    /// The changing calls the repository has made on its storage.
    pub open spec fn calls(&self) -> Seq<StorageCall<u64>> {
        self.storage.log()
    }

    pub fn new(storage: S) -> (r: Self)
        ensures
            r.storage == storage,
    {
        Self { storage }
    }

    pub fn get(&self, id: u64) -> (r: Option<&User>)
        ensures
            match r {
                Some(u) => lookup(self.users(), id) == Some(*u),
                None => lookup(self.users(), id) is None,
            },
    {
        self.storage.get(&id)
    }

    pub fn add(&mut self, user: User) -> (added: bool)
        ensures
            (final(self).users(), added) == add_outcome(old(self).users(), user),
            final(self).calls() == if added {
                old(self).calls().push(StorageCall::Insert(user.id))
            } else {
                old(self).calls()
            },
    {
        if self.storage.get(&user.id).is_some() {
            return false;
        }
        self.storage.set(user.id, user);
        true
    }

    pub fn update(&mut self, user: User) -> (updated: bool)
        ensures
            (final(self).users(), updated) == update_outcome(old(self).users(), user),
            final(self).calls() == if updated {
                old(self).calls().push(StorageCall::Insert(user.id))
            } else {
                old(self).calls()
            },
    {
        if self.storage.get(&user.id).is_none() {
            return false;
        }
        self.storage.set(user.id, user);
        true
    }

    pub fn remove(&mut self, id: u64) -> (r: Option<User>)
        ensures
            final(self).users() == old(self).users().remove(id),
            final(self).calls() == old(self).calls().push(StorageCall::Remove(id)),
            r == lookup(old(self).users(), id),
    {
        self.storage.remove(&id)
    }
}

/// A repository whose storage sits behind a trait object.
pub struct UserRepositoryDynamic {
    pub storage: Box<dyn Storage<u64, User>>,
}

impl UserRepositoryDynamic {
    pub open spec fn users(&self) -> Users {
        self.storage.contents()
    }

    /// The changing calls the repository has made on its storage.
    pub open spec fn calls(&self) -> Seq<StorageCall<u64>> {
        self.storage.log()
    }

    /// A repository over `storage`: it holds what the storage holds.
    pub fn new(storage: Box<dyn Storage<u64, User>>) -> (r: Self)
        ensures
            r.storage == storage,
            r.users() == storage.contents(),
    {
        // The storage is moved in by a swap rather than by the struct
        // literal: initialising a field of type `Box<dyn Storage>` counts as
        // a coercion to `dyn`, after which the field is no longer known to
        // be the argument.
        let mut storage = storage;
        let mut r = Self { storage: Box::new(HashMapStorage::<u64, User>::new()) };
        std::mem::swap(&mut r.storage, &mut storage);
        r
    }

    pub fn get(&self, id: u64) -> (r: Option<&User>)
        ensures
            match r {
                Some(u) => lookup(self.users(), id) == Some(*u),
                None => lookup(self.users(), id) is None,
            },
    {
        self.storage.get(&id)
    }

    pub fn add(&mut self, user: User) -> (added: bool)
        ensures
            (final(self).users(), added) == add_outcome(old(self).users(), user),
            final(self).calls() == if added {
                old(self).calls().push(StorageCall::Insert(user.id))
            } else {
                old(self).calls()
            },
    {
        if self.storage.get(&user.id).is_some() {
            return false;
        }
        self.storage.set(user.id, user);
        true
    }

    pub fn update(&mut self, user: User) -> (updated: bool)
        ensures
            (final(self).users(), updated) == update_outcome(old(self).users(), user),
            final(self).calls() == if updated {
                old(self).calls().push(StorageCall::Insert(user.id))
            } else {
                old(self).calls()
            },
    {
        if self.storage.get(&user.id).is_none() {
            return false;
        }
        self.storage.set(user.id, user);
        true
    }

    pub fn remove(&mut self, id: u64) -> (r: Option<User>)
        ensures
            final(self).users() == old(self).users().remove(id),
            final(self).calls() == old(self).calls().push(StorageCall::Remove(id)),
            r == lookup(old(self).users(), id),
    {
        self.storage.remove(&id)
    }
}

} // verus!
