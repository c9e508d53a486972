//! How the kinds of divergence of a ledger are written.
use vstd::prelude::*;

verus! {

/// An entry's hash does not match its content.
pub const HASH_MISMATCH: &'static str = "hash_mismatch";

/// A position is missing.
pub const MISSING_SEQ: &'static str = "missing_ledger_seq";

/// The end of the ledger is gone.
pub const TRUNCATED_TAIL: &'static str = "truncated_tail";

/// An entry points at another predecessor.
pub const RELINKED_PREV_HASH: &'static str = "relinked_prev_hash";

} // verus!
