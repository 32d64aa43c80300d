use crate::table::RowKey;
use vstd::prelude::*;

verus! {

/// Failures of the data layer.
#[derive(Clone, Debug)]
pub enum StoreError {
    /// A point read found no row.
    NotFound,
    /// The table or its transport failed a single request.
    Storage { message: String },
    /// A bulk write or delete left rows unapplied; earlier chunks stay applied.
    PartialWrite { unprocessed: Vec<RowKey> },
    /// An entity broke the non-blank key rule; no request was made.
    Validation { message: String },
}

} // verus!
