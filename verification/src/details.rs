//! The value that an extraction produces.

use vstd::prelude::*;

verus! {

/// What a scheduler needs to rank a transaction and to count it against a
/// block's compute limit. Both fields are always present together.
#[derive(Clone, Debug, PartialEq, Eq, Structural)]
pub struct TransactionPriorityDetails {
    /// The compute-unit price that the transaction declares, 0 if it declares none.
    pub priority: u64,
    /// The most compute units that the transaction may consume.
    pub compute_unit_limit: u64,
}

} // verus!
