use vstd::prelude::*;

use crate::server::ServerPtr;

verus! {

/// The WHIP module: HTTP signalling that forwards offers to the WebRTC
/// module.
pub struct WhipModule {
    pub name: String,
    pub server: ServerPtr,
}

impl WhipModule {
    pub fn new(server: ServerPtr) -> (r: Self)
        ensures
            r.name@ == "whip"@,
            r.server == server,
    {
        WhipModule { name: "whip".to_owned(), server }
    }
}

} // verus!
