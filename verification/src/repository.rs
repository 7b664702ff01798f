use vstd::prelude::*;

use crate::error::ProfileKitError;
use crate::model::{ProfileView, UserProfile};

verus! {

/// Abstraction for user profile data access and persistence.
///
/// This trait defines the expected interface for any storage backend
/// (e.g., database, API, in-memory) that handles user profile data.
/// A backend is modelled by the map from identifiers to stored profiles
/// that its `store` spec function exposes; `wf` is its internal
/// well-formedness. Backend-level failures surface as `Database` or
/// `StorageError`, and every mutating operation leaves the store
/// untouched when it fails.
pub trait UserProfileRepository {
    /// The profiles the backend holds, by identifier.
    spec fn store(&self) -> Map<Seq<char>, ProfileView>;

    /// The backend's internal well-formedness.
    spec fn wf(&self) -> bool;

    /// Retrieves a user profile by its unique ID: the stored profile if
    /// present, an explicit "not present" if absent, and an error only
    /// for a backend-level failure.
    fn get_by_id(&self, id: String) -> (r: Result<Option<UserProfile>, ProfileKitError>)
        requires
            self.wf(),
        ensures
            match r {
                Ok(Some(p)) => self.store().contains_key(id@) && p@ == self.store()[id@],
                Ok(None) => !self.store().contains_key(id@),
                Err(e) => e is Database || e is StorageError,
            },
    ;

    /// Creates a new user profile: fails with `AlreadyExists` exactly
    /// when the identifier is already present, and persists the profile
    /// otherwise.
    fn create(&mut self, profile: UserProfile) -> (r: Result<(), ProfileKitError>)
        requires
            old(self).wf(),
        ensures
            final(self).wf(),
            match r {
                Ok(_) => !old(self).store().contains_key(profile.id@) && final(self).store()
                    == old(self).store().insert(profile.id@, profile@),
                Err(e) => final(self).store() == old(self).store() && match e {
                    ProfileKitError::AlreadyExists => old(self).store().contains_key(profile.id@),
                    ProfileKitError::Database(_) => true,
                    ProfileKitError::StorageError => true,
                    _ => false,
                },
            },
    ;

    /// Updates an existing user profile: fails with `NotFound` exactly
    /// when the identifier is absent, and replaces the stored profile
    /// otherwise.
    fn update(&mut self, profile: UserProfile) -> (r: Result<(), ProfileKitError>)
        requires
            old(self).wf(),
        ensures
            final(self).wf(),
            match r {
                Ok(_) => old(self).store().contains_key(profile.id@) && final(self).store()
                    == old(self).store().insert(profile.id@, profile@),
                Err(e) => final(self).store() == old(self).store() && match e {
                    ProfileKitError::NotFound => !old(self).store().contains_key(profile.id@),
                    ProfileKitError::Database(_) => true,
                    ProfileKitError::StorageError => true,
                    _ => false,
                },
            },
    ;

    /// Deletes a user profile by its ID: fails with `NotFound` exactly
    /// when the identifier is absent, and removes the record otherwise.
    fn delete(&mut self, id: String) -> (r: Result<(), ProfileKitError>)
        requires
            old(self).wf(),
        ensures
            final(self).wf(),
            match r {
                Ok(_) => old(self).store().contains_key(id@) && final(self).store() == old(
                    self,
                ).store().remove(id@),
                Err(e) => final(self).store() == old(self).store() && match e {
                    ProfileKitError::NotFound => !old(self).store().contains_key(id@),
                    ProfileKitError::Database(_) => true,
                    ProfileKitError::StorageError => true,
                    _ => false,
                },
            },
    ;
}

/// The map a sequence of keyed profiles describes; a later entry for the
/// same identifier wins.
pub open spec fn store_of(s: Seq<(String, UserProfile)>) -> Map<Seq<char>, ProfileView>
    decreases s.len(),
{
    if s.len() == 0 {
        Map::empty()
    } else {
        store_of(s.drop_last()).insert(s.last().0@, s.last().1@)
    }
}

/// No two entries of the backing sequence share an identifier.
pub open spec fn keys_unique(s: Seq<(String, UserProfile)>) -> bool {
    forall|i: int, j: int| 0 <= i < j < s.len() ==> s[i].0@ != s[j].0@
}

proof fn lemma_store_of_contains(s: Seq<(String, UserProfile)>, key: Seq<char>)
    ensures
        store_of(s).contains_key(key) <==> exists|i: int| 0 <= i < s.len() && s[i].0@ == key,
    decreases s.len(),
{
    if s.len() > 0 {
        lemma_store_of_contains(s.drop_last(), key);
        if store_of(s).contains_key(key) {
            if s.last().0@ != key {
                let i = choose|i: int| 0 <= i < s.drop_last().len() && s.drop_last()[i].0@ == key;
                assert(s[i].0@ == key);
            }
        }
        if exists|i: int| 0 <= i < s.len() && s[i].0@ == key {
            let i = choose|i: int| 0 <= i < s.len() && s[i].0@ == key;
            if i < s.len() - 1 {
                assert(s.drop_last()[i].0@ == key);
            }
        }
    }
}

proof fn lemma_store_of_value(s: Seq<(String, UserProfile)>, i: int)
    requires
        keys_unique(s),
        0 <= i < s.len(),
    ensures
        store_of(s).contains_key(s[i].0@),
        store_of(s)[s[i].0@] == s[i].1@,
    decreases s.len(),
{
    if i == s.len() - 1 {
        lemma_store_of_contains(s, s[i].0@);
    } else {
        assert(s.drop_last()[i] == s[i]);
        lemma_store_of_value(s.drop_last(), i);
        assert(s.last().0@ != s[i].0@);
    }
}

proof fn lemma_store_of_push(s: Seq<(String, UserProfile)>, e: (String, UserProfile))
    ensures
        store_of(s.push(e)) == store_of(s).insert(e.0@, e.1@),
{
    assert(s.push(e).drop_last() =~= s);
    assert(s.push(e).last() == e);
}

proof fn lemma_store_of_remove(s: Seq<(String, UserProfile)>, i: int)
    requires
        keys_unique(s),
        0 <= i < s.len(),
    ensures
        store_of(s.remove(i)) == store_of(s).remove(s[i].0@),
    decreases s.len(),
{
    let key = s[i].0@;
    if i == s.len() - 1 {
        assert(s.remove(i) =~= s.drop_last());
        lemma_store_of_contains(s.drop_last(), key);
        assert(!store_of(s.drop_last()).contains_key(key));
        assert(store_of(s.drop_last()).insert(key, s.last().1@).remove(key) =~= store_of(
            s.drop_last(),
        ));
    } else {
        assert(s.remove(i).last() == s.last());
        assert(s.remove(i).drop_last() =~= s.drop_last().remove(i));
        assert(s.drop_last()[i] == s[i]);
        lemma_store_of_remove(s.drop_last(), i);
        assert(s.last().0@ != key);
        assert(store_of(s.drop_last()).remove(key).insert(s.last().0@, s.last().1@) =~= store_of(
            s.drop_last(),
        ).insert(s.last().0@, s.last().1@).remove(key));
    }
}

/// An in-memory storage backend: a table of profiles keyed by their
/// identifier, exclusively owned by the repository instance.
pub struct InMemoryUserProfileRepository {
    storage: Vec<(String, UserProfile)>,
}

impl InMemoryUserProfileRepository {
    /// Creates an empty in-memory repository.
    pub fn new() -> (r: Self)
        ensures
            r.wf(),
            r.store() == Map::<Seq<char>, ProfileView>::empty(),
    {
        InMemoryUserProfileRepository { storage: Vec::new() }
    }

    /// The index of the entry holding `id`, if any.
    fn find(&self, id: &String) -> (r: Option<usize>)
        ensures
            match r {
                Some(i) => i < self.storage@.len() && self.storage@[i as int].0@ == id@,
                None => forall|j: int| 0 <= j < self.storage@.len() ==> self.storage@[j].0@ != id@,
            },
    {
        let mut i: usize = 0;
        while i < self.storage.len()
            invariant
                0 <= i <= self.storage@.len(),
                forall|j: int| 0 <= j < i ==> self.storage@[j].0@ != id@,
            decreases self.storage@.len() - i,
        {
            if self.storage[i].0 == *id {
                return Some(i);
            }
            i += 1;
        }
        None
    }
}

impl UserProfileRepository for InMemoryUserProfileRepository {
    closed spec fn store(&self) -> Map<Seq<char>, ProfileView> {
        store_of(self.storage@)
    }

    closed spec fn wf(&self) -> bool {
        keys_unique(self.storage@)
    }

    fn get_by_id(&self, id: String) -> (r: Result<Option<UserProfile>, ProfileKitError>)
        ensures
            r is Ok,
    {
        match self.find(&id) {
            Some(i) => {
                proof {
                    lemma_store_of_value(self.storage@, i as int);
                }
                Ok(Some(self.storage[i].1.clone()))
            }
            None => {
                proof {
                    lemma_store_of_contains(self.storage@, id@);
                }
                Ok(None)
            }
        }
    }

    fn create(&mut self, profile: UserProfile) -> (r: Result<(), ProfileKitError>)
        ensures
            r is Ok || r matches Err(ProfileKitError::AlreadyExists),
    {
        match self.find(&profile.id) {
            Some(i) => {
                proof {
                    lemma_store_of_value(self.storage@, i as int);
                }
                Err(ProfileKitError::AlreadyExists)
            }
            None => {
                proof {
                    lemma_store_of_contains(self.storage@, profile.id@);
                    lemma_store_of_push(self.storage@, (profile.id, profile));
                }
                let key = profile.id.clone();
                self.storage.push((key, profile));
                Ok(())
            }
        }
    }

    fn update(&mut self, profile: UserProfile) -> (r: Result<(), ProfileKitError>)
        ensures
            r is Ok || r matches Err(ProfileKitError::NotFound),
    {
        match self.find(&profile.id) {
            Some(i) => {
                proof {
                    lemma_store_of_value(self.storage@, i as int);
                    lemma_store_of_remove(self.storage@, i as int);
                    lemma_store_of_push(self.storage@.remove(i as int), (profile.id, profile));
                }
                self.storage.remove(i);
                let key = profile.id.clone();
                self.storage.push((key, profile));
                proof {
                    assert(self.store() =~= old(self).store().insert(profile.id@, profile@));
                }
                Ok(())
            }
            None => {
                proof {
                    lemma_store_of_contains(self.storage@, profile.id@);
                }
                Err(ProfileKitError::NotFound)
            }
        }
    }

    fn delete(&mut self, id: String) -> (r: Result<(), ProfileKitError>)
        ensures
            r is Ok || r matches Err(ProfileKitError::NotFound),
    {
        match self.find(&id) {
            Some(i) => {
                proof {
                    lemma_store_of_value(self.storage@, i as int);
                    lemma_store_of_remove(self.storage@, i as int);
                }
                self.storage.remove(i);
                Ok(())
            }
            None => {
                proof {
                    lemma_store_of_contains(self.storage@, id@);
                }
                Err(ProfileKitError::NotFound)
            }
        }
    }
}

} // verus!
