//! What a client can ask for on its own account.

use vstd::prelude::*;

verus! {

/// A command of the client.
pub enum ClientCommand {
    GetDocument,
}

} // verus!
