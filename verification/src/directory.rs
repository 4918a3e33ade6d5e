//! The directory: the id to public-key registry.
//!
//! Identities register their public key once; a conflicting
//! re-registration is rejected and never overwrites the original record.
//! Lookups return single records or a full snapshot used to seed route
//! sampling.

use vstd::prelude::*;

verus! {

use crate::registry::Registry;

/// A directory record: an identity and its 32-byte public key.
pub struct DirectoryRegistration {
    pub id: String,
    pub pk: Vec<u8>,
}

/// Registration failure: the identity already holds a record.
#[derive(Debug, Clone, Copy, PartialEq, Eq, Structural)]
pub enum DirectoryRegistrationError {
    Conflict,
}

/// Lookup failure: no record is held for the identity.
#[derive(Debug, Clone, Copy, PartialEq, Eq, Structural)]
pub enum GetDirectoryRegistrationError {
    NotFound,
}

/// What registering does to the record table: a new identity is added
/// with its key; an identity already held leaves the table unchanged.
pub open spec fn spec_recorded(
    records: Map<Seq<char>, Seq<u8>>,
    id: Seq<char>,
    pk: Seq<u8>,
) -> Map<Seq<char>, Seq<u8>> {
    if records.contains_key(id) {
        records
    } else {
        records.insert(id, pk)
    }
}

/// Law: registering the same identity twice keeps the first key. The
/// second registration conflicts, changes nothing, and lookups still
/// return the key recorded first.
pub proof fn lemma_second_register_keeps_key(
    records: Map<Seq<char>, Seq<u8>>,
    id: Seq<char>,
    pk1: Seq<u8>,
    pk2: Seq<u8>,
)
    requires
        !records.contains_key(id),
    ensures
        ({
            let once = spec_recorded(records, id, pk1);
            &&& once.contains_key(id)
            &&& spec_recorded(once, id, pk2) == once
            &&& once[id] == pk1
        }),
{
}

/// The id to public-key registry.
pub struct Directory {
    registrations: Registry<Vec<u8>>,
}

impl Directory {
    /// The records: a map from identity to its public-key bytes.
    pub closed spec fn view(self) -> Map<Seq<char>, Seq<u8>> {
        Map::new(
            |id: Seq<char>| self.registrations@.contains_key(id),
            |id: Seq<char>| self.registrations@[id]@,
        )
    }

    /// Every held public key is full width.
    pub closed spec fn wf(self) -> bool {
        &&& self.registrations.inv()
        &&& forall|id: Seq<char>|
            self.registrations@.contains_key(id) ==> self.registrations@[id]@.len() == 32
    }

    /// An empty directory.
    pub fn new() -> (r: Self)
        ensures
            r.wf(),
            r@ == Map::<Seq<char>, Seq<u8>>::empty(),
    {
        let r = Directory { registrations: Registry::new() };
        proof {
            assert(r@ =~= Map::<Seq<char>, Seq<u8>>::empty());
        }
        r
    }

    /// Add a record for an identity not yet held; for an identity already
    /// held this is a conflict, and the original record is kept unchanged.
    pub fn register(&mut self, registration: DirectoryRegistration) -> (r: Result<
        (),
        DirectoryRegistrationError,
    >)
        requires
            old(self).wf(),
            registration.pk@.len() == 32,
        ensures
            final(self).wf(),
            final(self)@ == spec_recorded(old(self)@, registration.id@, registration.pk@),
            match r {
                Ok(()) => !old(self)@.contains_key(registration.id@),
                Err(e) => e == DirectoryRegistrationError::Conflict && old(self)@.contains_key(
                    registration.id@,
                ),
            },
    {
        let ghost prev = *self;
        let ghost idv = registration.id@;
        let ghost pkv = registration.pk@;
        match self.registrations.insert_new(registration.id, registration.pk) {
            Ok(()) => {
                proof {
                    assert(self@ =~= prev@.insert(idv, pkv));
                }
                Ok(())
            },
            Err(()) => Err(DirectoryRegistrationError::Conflict),
        }
    }

    /// The record held for an identity, or `NotFound`.
    pub fn get_registration(&self, id: &String) -> (r: Result<
        DirectoryRegistration,
        GetDirectoryRegistrationError,
    >)
        requires
            self.wf(),
        ensures
            match r {
                Ok(reg) => self@.contains_key(id@) && reg.id@ == id@ && reg.pk@ == self@[id@],
                Err(e) => e == GetDirectoryRegistrationError::NotFound && !self@.contains_key(id@),
            },
    {
        match self.registrations.get(id) {
            Some(pk) => Ok(
                DirectoryRegistration { id: id.clone(), pk: vstd::slice::slice_to_vec(pk.as_slice()) },
            ),
            None => Err(GetDirectoryRegistrationError::NotFound),
        }
    }

    /// A snapshot of every record: one entry per held identity, each with
    /// its key, and nothing else.
    pub fn get_all_registrations(&self) -> (r: Vec<DirectoryRegistration>)
        requires
            self.wf(),
        ensures
            r@.len() == self@.dom().len(),
            forall|i: int|
                0 <= i < r@.len() ==> self@.contains_key(#[trigger] r@[i].id@) && r@[i].pk@
                    == self@[r@[i].id@],
            forall|id: Seq<char>|
                self@.contains_key(id) ==> exists|i: int|
                    0 <= i < r@.len() && #[trigger] r@[i].id@ == id,
            forall|i: int, j: int| 0 <= i < j < r@.len() ==> r@[i].id@ != r@[j].id@,
    {
        proof {
            self.registrations.lemma_entries_view();
        }
        let n = self.registrations.len();
        let mut r: Vec<DirectoryRegistration> = Vec::new();
        let mut i: usize = 0;
        while i < n
            invariant
                self.wf(),
                n == self.registrations.entries_seq().len(),
                i <= n,
                r@.len() == i,
                forall|j: int|
                    0 <= j < i ==> #[trigger] r@[j].id@ == self.registrations.entries_seq()[j].0
                        && r@[j].pk@ == self.registrations.entries_seq()[j].1@,
            decreases n - i,
        {
            let (id, pk) = self.registrations.entry_at(i);
            r.push(DirectoryRegistration {
                id: id.clone(),
                pk: vstd::slice::slice_to_vec(pk.as_slice()),
            });
            i += 1;
        }
        proof {
            self.registrations.lemma_entries_view();
            assert(self@.dom() =~= self.registrations@.dom());
            assert forall|id: Seq<char>| self@.contains_key(id) implies exists|i: int|
                0 <= i < r@.len() && #[trigger] r@[i].id@ == id by {
                let i = choose|i: int|
                    0 <= i < self.registrations.entries_seq().len()
                        && #[trigger] self.registrations.entries_seq()[i].0 == id;
                assert(r@[i].id@ == id);
            }
        }
        r
    }
}

} // verus!
