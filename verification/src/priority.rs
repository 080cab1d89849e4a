//! Priority details of whichever transaction representation the caller holds.

use vstd::prelude::*;
use solana_sdk::transaction::{SanitizedTransaction, SanitizedVersionedTransaction};
use crate::budget::decode_budget_limits;
use crate::directive::keep_last_of_each_kind;
use crate::details::TransactionPriorityDetails;
use crate::extraction::{
    declared_limit_of, declared_price_of, directives_are_readable, priority_details_of,
    resolve_priority_details,
};
use crate::instruction::{instruction_views, InstructionView, ProgramInstruction};
use crate::transaction::{
    program_instructions_of_sanitized, program_instructions_of_versioned, sanitized_instructions,
    sanitized_versioned_instructions,
};

verus! {

/// A transaction that can say how it wants to be ranked.
pub trait GetTransactionPriorityDetails {
    /// The transaction's instructions, each with the identifier of the
    /// program that it addresses, in the order in which the transaction lists them.
    spec fn program_instructions(&self) -> Seq<InstructionView>;

    /// The priority and the compute-unit limit that the transaction's
    /// compute-budget instructions declare, or `None` where one of them
    /// cannot be read or the decoder rejects them. The result depends on
    /// the instructions alone: the flag is kept for a later rounding policy
    /// and changes nothing.
    fn get_transaction_priority_details(&self, round_compute_unit_price_enabled: bool) -> (details: Option<TransactionPriorityDetails>)
        ensures
            details == priority_details_of(self.program_instructions()),
            details matches Some(resolved) ==> resolved.compute_unit_limit <= u32::MAX,
    ;

    /// The same for a bare list of instructions. Where a later directive
    /// repeats the kind of an earlier one, the later one wins.
    fn process_compute_budget_instruction(
        instructions: &[ProgramInstruction],
        _round_compute_unit_price_enabled: bool,
    ) -> (details: Option<TransactionPriorityDetails>)
        ensures
            details == priority_details_of(instruction_views(instructions@)),
            details matches Some(resolved) ==> resolved.compute_unit_limit <= u32::MAX,
    {
        if !directives_are_readable(instructions) {
            return None;
        }
        let kept = keep_last_of_each_kind(instructions);
        let decoded = decode_budget_limits(kept.as_slice());
        let price = declared_price_of(instructions);
        let limit = declared_limit_of(instructions);
        resolve_priority_details(decoded, price, limit)
    }
}

impl GetTransactionPriorityDetails for SanitizedVersionedTransaction {
    open spec fn program_instructions(&self) -> Seq<InstructionView> {
        sanitized_versioned_instructions(*self)
    }

    fn get_transaction_priority_details(&self, round_compute_unit_price_enabled: bool) -> (details: Option<TransactionPriorityDetails>) {
        let instructions = program_instructions_of_versioned(self);
        Self::process_compute_budget_instruction(
            instructions.as_slice(),
            round_compute_unit_price_enabled,
        )
    }
}

impl GetTransactionPriorityDetails for SanitizedTransaction {
    open spec fn program_instructions(&self) -> Seq<InstructionView> {
        sanitized_instructions(*self)
    }

    fn get_transaction_priority_details(&self, round_compute_unit_price_enabled: bool) -> (details: Option<TransactionPriorityDetails>) {
        let instructions = program_instructions_of_sanitized(self);
        Self::process_compute_budget_instruction(
            instructions.as_slice(),
            round_compute_unit_price_enabled,
        )
    }
}

/// The representation does not matter: two transactions that hold the same
/// instructions have the same priority details, whichever representation
/// each of them is in.
pub proof fn lemma_same_instructions_same_details<
    A: GetTransactionPriorityDetails,
    B: GetTransactionPriorityDetails,
>(first: A, second: B)
    requires
        first.program_instructions() == second.program_instructions(),
    ensures
        priority_details_of(first.program_instructions()) == priority_details_of(
            second.program_instructions(),
        ),
{
}

/// Extraction is repeatable: two results that an extraction may return for
/// one transaction, under whichever flags, are equal.
pub proof fn lemma_extraction_is_repeatable<T: GetTransactionPriorityDetails>(
    transaction: T,
    first: Option<TransactionPriorityDetails>,
    second: Option<TransactionPriorityDetails>,
)
    requires
        first == priority_details_of(transaction.program_instructions()),
        second == priority_details_of(transaction.program_instructions()),
    ensures
        first == second,
{
}

} // verus!
