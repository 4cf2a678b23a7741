//! The identities of the relays of a relay service.
use std::path::PathBuf;

use vstd::prelude::*;

use crate::name_table::{entry_texts, names_different, table_of};
use crate::name_table::NameTable;
use crate::utils::is_uuid_text;
use crate::utils::new_uuid;

verus! {

/// A path of a file, as `std::path::PathBuf` holds it.
#[verifier::external_type_specification]
#[verifier::external_body]
pub struct ExPathBuf(PathBuf);

/// The identities of the relays, one per interface, and the file they are kept
/// in.
#[derive(Debug)]
pub struct Database {
    path: PathBuf,
    relay_ids: NameTable,
}

/// The identities of the relays, one per interface, as plain values.
pub struct DatabaseInfo {
    pub path: PathBuf,
    pub relay_ids: Map<Seq<char>, Seq<char>>,
}

impl View for Database {
    type V = DatabaseInfo;

    closed spec fn view(&self) -> DatabaseInfo {
        DatabaseInfo { path: self.path, relay_ids: self.relay_ids@ }
    }
}

/// The identity of the relay of an interface.
#[derive(Debug)]
pub struct RelayId {
    pub id: String,
    /// Whether it is new, and has to be stored.
    pub is_new: bool,
}

/// The identities once the one of an interface was asked for: it is the known
/// one, or else the given one.
pub open spec fn with_relay_id(
    relay_ids: Map<Seq<char>, Seq<char>>,
    name: Seq<char>,
    id: Seq<char>,
) -> Map<Seq<char>, Seq<char>> {
    if relay_ids.contains_key(name) {
        relay_ids
    } else {
        relay_ids.insert(name, id)
    }
}

impl Database {
    /// The identities that a file holds.
    pub fn new(path: PathBuf, relay_ids: NameTable) -> (r: Database)
        ensures
            r@ == (DatabaseInfo { path, relay_ids: relay_ids@ }),
    {
        Database { path, relay_ids }
    }

    /// The file that the identities are kept in.
    pub fn path(&self) -> (r: &PathBuf)
        ensures
            *r == self@.path,
    {
        &self.path
    }

    /// What to store: the identities, each under its interface's name.
    pub fn entries(&self) -> (r: Vec<(String, String)>)
        ensures
            table_of(entry_texts(r@)) == self@.relay_ids,
            names_different(entry_texts(r@)),
    {
        self.relay_ids.entries()
    }

    /// The identity of the relay of an interface. A new one is left to chance.
    pub fn get_relay_id(&mut self, name: &str) -> (r: RelayId)
        ensures
            r.is_new == !old(self)@.relay_ids.contains_key(name@),
            r.is_new ==> is_uuid_text(r.id@),
            final(self)@ == (DatabaseInfo {
                relay_ids: with_relay_id(old(self)@.relay_ids, name@, r.id@),
                ..old(self)@
            }),
            r.id@ == final(self)@.relay_ids[name@],
    {
        let fresh: String = new_uuid();
        self.get_relay_id_or(name, fresh)
    }

    /// The identity of the relay of an interface, which is the given one where
    /// none is known.
    pub fn get_relay_id_or(&mut self, name: &str, fresh: String) -> (r: RelayId)
        ensures
            r.is_new == !old(self)@.relay_ids.contains_key(name@),
            final(self)@ == (DatabaseInfo {
                relay_ids: with_relay_id(old(self)@.relay_ids, name@, fresh@),
                ..old(self)@
            }),
            r.is_new ==> r.id@ == fresh@,
            r.id@ == final(self)@.relay_ids[name@],
    {
        match self.relay_ids.get(name) {
            Some(id) => RelayId { id, is_new: false },
            None => {
                self.relay_ids.insert(name.to_owned(), fresh.clone());
                RelayId { id: fresh, is_new: true }
            },
        }
    }
}

/// The identities once several were asked for, each with the identity that it
/// gets where none is known.
pub open spec fn with_relay_ids(
    relay_ids: Map<Seq<char>, Seq<char>>,
    requests: Seq<(Seq<char>, Seq<char>)>,
) -> Map<Seq<char>, Seq<char>>
    decreases requests.len(),
{
    if requests.len() == 0 {
        relay_ids
    } else {
        with_relay_id(
            with_relay_ids(relay_ids, requests.drop_last()),
            requests.last().0,
            requests.last().1,
        )
    }
}

/// Once the relay of an interface has an identity, it keeps it, whatever is
/// asked for later.
pub proof fn law_relay_identity_stays(
    relay_ids: Map<Seq<char>, Seq<char>>,
    name: Seq<char>,
    requests: Seq<(Seq<char>, Seq<char>)>,
    fresh: Seq<char>,
)
    requires
        relay_ids.contains_key(name),
    ensures
        with_relay_ids(relay_ids, requests).contains_key(name),
        with_relay_ids(relay_ids, requests)[name] == relay_ids[name],
        with_relay_id(with_relay_ids(relay_ids, requests), name, fresh) == with_relay_ids(
            relay_ids,
            requests,
        ),
    decreases requests.len(),
{
    if requests.len() > 0 {
        law_relay_identity_stays(relay_ids, name, requests.drop_last(), fresh);
    }
}

/// The relay of an interface without an identity gets the given one, and no
/// other identity changes. One that has an identity keeps it.
pub proof fn law_relay_identity_is_given_once(
    relay_ids: Map<Seq<char>, Seq<char>>,
    name: Seq<char>,
    id: Seq<char>,
    other: Seq<char>,
)
    ensures
        ({
            let after = with_relay_id(relay_ids, name, id);
            &&& after.contains_key(name)
            &&& relay_ids.contains_key(name) ==> after[name] == relay_ids[name]
            &&& !relay_ids.contains_key(name) ==> after[name] == id
            &&& other != name ==> {
                &&& after.contains_key(other) <==> relay_ids.contains_key(other)
                &&& relay_ids.contains_key(other) ==> after[other] == relay_ids[other]
            }
        }),
{
}

} // verus!
