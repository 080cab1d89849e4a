//! The transaction representations that yield their instructions.

use vstd::prelude::*;
use solana_sdk::transaction::{SanitizedTransaction, SanitizedVersionedTransaction};
use crate::instruction::{instruction_views, InstructionView, ProgramInstruction};

verus! {

/// `solana_sdk::transaction::SanitizedTransaction`, carried as it is.
#[verifier::external_type_specification]
#[verifier::external_body]
pub struct ExSanitizedTransaction(SanitizedTransaction);

/// `solana_sdk::transaction::SanitizedVersionedTransaction`, carried as it is.
#[verifier::external_type_specification]
#[verifier::external_body]
pub struct ExSanitizedVersionedTransaction(SanitizedVersionedTransaction);

/// The instructions that a sanitized transaction holds, each with its
/// resolved program identifier, in the transaction's order.
pub uninterp spec fn sanitized_instructions(transaction: SanitizedTransaction) -> Seq<InstructionView>;

/// The instructions that a sanitized versioned transaction holds, each with
/// its resolved program identifier, in the transaction's order.
pub uninterp spec fn sanitized_versioned_instructions(transaction: SanitizedVersionedTransaction) -> Seq<InstructionView>;

/// Copies out what `program_instructions_iter` of the transaction's
/// `message()` yields.
///
/// Not proved: that the copies are the transaction's instructions in order.
/// The iterator resolves each program identifier from the account list and
/// does not fail on a sanitized transaction, whose program indices are in range.
#[verifier::external_body]
pub(crate) fn program_instructions_of_sanitized(transaction: &SanitizedTransaction) -> (instructions: Vec<ProgramInstruction>)
    ensures
        instruction_views(instructions@) == sanitized_instructions(*transaction),
{
    transaction.message().program_instructions_iter().map(|(program_id, instruction)| ProgramInstruction {
        program_id: program_id.to_bytes(),
        program_id_index: instruction.program_id_index,
        accounts: instruction.accounts.clone(),
        data: instruction.data.clone(),
    }).collect()
}

/// Copies out what `program_instructions_iter` of the transaction's
/// `get_message()` yields.
///
/// Not proved: that the copies are the transaction's instructions in order.
/// The iterator resolves each program identifier from the static account
/// keys and does not fail on a sanitized transaction, whose program indices
/// are in range.
#[verifier::external_body]
pub(crate) fn program_instructions_of_versioned(transaction: &SanitizedVersionedTransaction) -> (instructions: Vec<ProgramInstruction>)
    ensures
        instruction_views(instructions@) == sanitized_versioned_instructions(*transaction),
{
    transaction.get_message().program_instructions_iter().map(|(program_id, instruction)| ProgramInstruction {
        program_id: program_id.to_bytes(),
        program_id_index: instruction.program_id_index,
        accounts: instruction.accounts.clone(),
        data: instruction.data.clone(),
    }).collect()
}

} // verus!
