//! The requests of the terminal client, one type for each.

use crate::ctx::AddCtx;
use crate::document::{DocumentOp, RecordKey};
use vstd::prelude::*;

verus! {

/// Ask for the whole document.
pub struct GetDocument();

/// Ask for the record under a key.
pub struct GetRecord {
    pub key: u64,
}

/// Ask for the aggregate clock.
pub struct GetReadCtx();

/// Add content to the record under a key.
pub struct AddRecordOp {
    pub add_ctx: AddCtx,
    pub key: RecordKey,
    pub content: String,
}

/// Apply an operation that this client made.
pub struct ApplyLocalOp {
    pub op: DocumentOp,
}

/// Apply an operation that another replica made.
pub struct ApplyRemoteOp {
    pub op: DocumentOp,
}

} // verus!
