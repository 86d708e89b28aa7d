//! What a client knows about its session.

use crate::server::data::UserSet;
use vstd::prelude::*;

verus! {

/// The client's id in the room, the number of the next chat message, the
/// master key (when one is set) and the users it knows of.
pub struct Data {
    pub id: u64,
    pub counter: u64,
    pub master_key: Option<[u8; 32]>,
    pub users: UserSet,
}

impl Data {
    /// A session with id 0, counter 0, no master key and no users.
    pub fn new() -> (data: Data)
        ensures
            data.id == 0,
            data.counter == 0,
            data.master_key is None,
            data.users@ == Map::<u64, Seq<char>>::empty(),
            data.users.next_free_id() == 0,
            data.users.wf(),
    {
        Data { id: 0, counter: 0, master_key: None, users: UserSet::new() }
    }
}

} // verus!
