use crate::strmap::{Duplicate, StrMap};
use vstd::string::StringExecFns;
use vstd::prelude::*;

verus! {

/// Where a player's creature is: its id and its chunk.
#[derive(Clone, Copy)]
pub struct ClientId {
    pub id: u64,
    pub chunk_x: i32,
    pub chunk_y: i32,
}

impl View for ClientId {
    type V = ClientId;

    open spec fn view(&self) -> ClientId {
        *self
    }
}

impl Duplicate for ClientId {
    fn duplicate(&self) -> (r: ClientId) {
        *self
    }
}

/// The registered players, by user name.
pub struct ClientIds {
    pub ids: StrMap<ClientId>,
}

impl View for ClientIds {
    type V = Map<Seq<char>, ClientId>;

    open spec fn view(&self) -> Map<Seq<char>, ClientId> {
        self.ids@
    }
}

impl Default for ClientIds {
    /// No players.
    fn default() -> (r: ClientIds)
        ensures
            r@ == Map::<Seq<char>, ClientId>::empty(),
    {
        ClientIds { ids: StrMap::new() }
    }
}

impl Clone for ClientIds {
    fn clone(&self) -> (r: ClientIds)
        ensures
            r@ == self@,
    {
        ClientIds { ids: self.ids.clone() }
    }
}

/// The query a client asks the server with: its id and user name.
pub struct IdQueryData {
    pub id: u64,
    pub username: String,
}

/// Whether a player of that name is registered; the id plays no part.
pub fn check_if_client_exists(ids: &ClientIds, username: &str, id: u64) -> (r: bool)
    ensures
        r == ids@.contains_key(username@),
{
    ids.ids.contains_key(username)
}

/// Registers a player under its name with its id, in chunk (0, 0), where a
/// new player's creature is spawned.
pub fn add_client_id(ids: &mut ClientIds, username: String, id: u64)
    ensures
        final(ids)@ == old(ids)@.insert(username@, ClientId { id, chunk_x: 0, chunk_y: 0 }),
{
    ids.ids.insert(username, ClientId { id, chunk_x: 0, chunk_y: 0 });
}

/// Answers a client's "do I exist" query: whether the name was registered
/// before; a name that was not is registered now.
pub fn client_exists(ids: &mut ClientIds, query: &IdQueryData) -> (r: bool)
    ensures
        r == old(ids)@.contains_key(query.username@),
        r ==> final(ids)@ == old(ids)@,
        !r ==> final(ids)@ == old(ids)@.insert(
            query.username@,
            ClientId { id: query.id, chunk_x: 0, chunk_y: 0 },
        ),
{
    let exists = check_if_client_exists(ids, query.username.as_str(), query.id);
    if !exists {
        add_client_id(ids, query.username.clone(), query.id);
    }
    exists
}

/// Records that the player named `name`, if registered, is now in chunk
/// (`chunk_x`, `chunk_y`).
pub fn set_client_chunk(ids: &mut ClientIds, name: &str, chunk_x: i32, chunk_y: i32)
    ensures
        old(ids)@.contains_key(name@) ==> final(ids)@ == old(ids)@.insert(
            name@,
            ClientId { chunk_x, chunk_y, ..old(ids)@[name@] },
        ),
        !old(ids)@.contains_key(name@) ==> final(ids)@ == old(ids)@,
{
    let found = match ids.ids.get(name) {
        Some(c) => Some(*c),
        None => None,
    };
    match found {
        Some(c) => {
            ids.ids.insert(String::from_str(name), ClientId { id: c.id, chunk_x, chunk_y });
        },
        None => {},
    }
}

} // verus!
