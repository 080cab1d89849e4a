//! The compute-budget decoder, which says whether a transaction's budget
//! directives are sound and which limits hold where the transaction declares none.

use vstd::prelude::*;
use solana_program_runtime::compute_budget_processor::process_compute_budget_instructions;
use solana_sdk::instruction::CompiledInstruction;
use solana_sdk::pubkey::Pubkey;
use solana_sdk::transaction::TransactionError;
use crate::instruction::{instruction_views, InstructionView, ProgramInstruction};

verus! {

/// The limits that the compute-budget decoder resolves for one transaction,
/// field for field.
#[derive(Clone, Copy, Debug, PartialEq, Eq, Structural)]
pub struct BudgetLimits {
    /// The heap size of each program that the transaction runs, in bytes.
    pub updated_heap_bytes: u32,
    /// The compute-unit ceiling: the one that the transaction sets, or the
    /// decoder's default where it sets none, and in either case no more
    /// than the decoder's own maximum of 1_400_000.
    pub compute_unit_limit: u32,
    /// The price per compute unit, 0 where the transaction sets none. The
    /// details take the price from the directive itself.
    pub compute_unit_price: u64,
    /// The most account data that the transaction may load, in bytes.
    pub loaded_accounts_bytes: u32,
}

/// `solana_sdk::transaction::TransactionError`, the decoder's reason for
/// rejecting a transaction. Nothing is read from it.
#[verifier::external_type_specification]
#[verifier::external_body]
pub struct ExTransactionError(TransactionError);

/// The limits that the compute-budget decoder resolves for a list of
/// instructions, `None` where it rejects the list.
pub uninterp spec fn decoded_budget_limits(instructions: Seq<InstructionView>) -> Option<BudgetLimits>;

/// Hands the instructions, in their order, to
/// `solana_program_runtime::compute_budget_processor::process_compute_budget_instructions`
/// and copies the answer's fields.
///
/// Not proved: that the answer depends on the instructions alone, which makes
/// it `decoded_budget_limits` of them. Nothing is claimed about which lists
/// the decoder accepts, nor about the limits that it resolves. The decoder
/// rejects a list in which a kind of directive occurs twice, so it is asked
/// about one directive alone or about a list with one directive of each kind.
#[verifier::external_body]
pub(crate) fn decode_budget_limits(instructions: &[ProgramInstruction]) -> (decoded: Result<
    BudgetLimits,
    TransactionError,
>)
    ensures
        decoded matches Ok(limits) ==> decoded_budget_limits(instruction_views(instructions@))
            == Some(limits),
        decoded is Err ==> decoded_budget_limits(instruction_views(instructions@)) is None,
{
    let pairs: Vec<(Pubkey, CompiledInstruction)> = instructions.iter().map(|instruction| (
        Pubkey::new_from_array(instruction.program_id),
        CompiledInstruction {
            program_id_index: instruction.program_id_index,
            accounts: instruction.accounts.clone(),
            data: instruction.data.clone(),
        },
    )).collect();
    process_compute_budget_instructions(pairs.iter().map(|pair| (&pair.0, &pair.1))).map(|limits| BudgetLimits {
        updated_heap_bytes: limits.updated_heap_bytes,
        compute_unit_limit: limits.compute_unit_limit,
        compute_unit_price: limits.compute_unit_price,
        loaded_accounts_bytes: limits.loaded_accounts_bytes,
    })
}

} // verus!
