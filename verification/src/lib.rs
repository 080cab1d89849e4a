//! Scheduling priority and declared compute-unit ceiling of a transaction,
//! read from its compute-budget instructions.

pub mod budget;
pub mod details;
pub mod directive;
pub mod extraction;
pub mod instruction;
pub mod laws;
pub mod priority;
pub mod transaction;

pub use budget::BudgetLimits;
pub use details::TransactionPriorityDetails;
pub use extraction::resolve_priority_details;
pub use instruction::ProgramInstruction;
pub use priority::GetTransactionPriorityDetails;
