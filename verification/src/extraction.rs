//! From a list of instructions to priority details.

use vstd::prelude::*;
use solana_sdk::transaction::TransactionError;
use crate::budget::{decode_budget_limits, decoded_budget_limits, BudgetLimits};
use crate::details::TransactionPriorityDetails;
use crate::directive::{
    addresses_budget_program, copy_of, declared_limit, declared_price, directive_kind,
    find_last_directive, is_budget_instruction, kind_of, last_of_each_kind, read_limit,
    read_price, SET_COMPUTE_UNIT_LIMIT, SET_COMPUTE_UNIT_PRICE,
};
use crate::instruction::{instruction_views, InstructionView, ProgramInstruction};

verus! {

/// Whether a compute-budget directive can be read: the decoder accepts it
/// when it stands alone, and a limit or a price directive is long enough to
/// hold its value.
pub open spec fn readable_directive(instruction: InstructionView) -> bool {
    &&& decoded_budget_limits(seq![instruction]) is Some
    &&& directive_kind(instruction) == Some(SET_COMPUTE_UNIT_LIMIT) ==> instruction.data.len() >= 5
    &&& directive_kind(instruction) == Some(SET_COMPUTE_UNIT_PRICE) ==> instruction.data.len() >= 9
}

/// Whether every instruction of the list that is addressed to the
/// compute-budget program can be read.
pub open spec fn directives_readable(instructions: Seq<InstructionView>) -> bool {
    forall|at: int|
        0 <= at < instructions.len() && addresses_budget_program(#[trigger] instructions[at])
            ==> readable_directive(instructions[at])
}

/// The details that follow from the decoder's answer and the declared
/// values. Where the decoder rejects the list there are none. Otherwise the
/// priority is the declared price, or 0, and the compute-unit limit is the
/// declared one, or the decoder's.
pub open spec fn resolved_details(
    decoded: Option<BudgetLimits>,
    price: Option<u64>,
    limit: Option<u32>,
) -> Option<TransactionPriorityDetails> {
    match decoded {
        Some(limits) => Some(
            TransactionPriorityDetails {
                priority: match price {
                    Some(declared) => declared,
                    None => 0,
                },
                compute_unit_limit: match limit {
                    Some(declared) => declared as u64,
                    None => limits.compute_unit_limit as u64,
                },
            },
        ),
        None => None,
    }
}

/// The priority details of a transaction that holds these instructions.
///
/// There are none where a compute-budget directive cannot be read. Otherwise
/// the later directive of each kind wins: the decoder is asked about the
/// list with only the last directive of each kind, and the declared values
/// are those of the last price and the last limit directive.
pub open spec fn priority_details_of(instructions: Seq<InstructionView>) -> Option<TransactionPriorityDetails> {
    if directives_readable(instructions) {
        resolved_details(
            decoded_budget_limits(last_of_each_kind(instructions)),
            declared_price(instructions),
            declared_limit(instructions),
        )
    } else {
        None
    }
}

/// Whether every compute-budget directive of the list can be read.
pub fn directives_are_readable(instructions: &[ProgramInstruction]) -> (readable: bool)
    ensures
        readable == directives_readable(instruction_views(instructions@)),
{
    let ghost views = instruction_views(instructions@);
    let mut at: usize = 0;
    while at < instructions.len()
        invariant
            at <= instructions.len(),
            views == instruction_views(instructions@),
            forall|before: int|
                0 <= before < at && addresses_budget_program(#[trigger] views[before])
                    ==> readable_directive(views[before]),
        decreases instructions.len() - at,
    {
        let instruction = &instructions[at];
        assert(views[at as int] == instruction@);
        if is_budget_instruction(instruction) {
            let long_enough = match kind_of(instruction) {
                Some(kind) => (kind != SET_COMPUTE_UNIT_LIMIT || instruction.data.len() >= 5) && (
                kind != SET_COMPUTE_UNIT_PRICE || instruction.data.len() >= 9),
                None => true,
            };
            let mut alone: Vec<ProgramInstruction> = Vec::new();
            alone.push(copy_of(instruction));
            assert(instruction_views(alone@) =~= seq![instruction@]);
            let accepted = decode_budget_limits(alone.as_slice()).is_ok();
            if !long_enough || !accepted {
                assert(!readable_directive(views[at as int]));
                return false;
            }
        }
        at += 1;
    }
    true
}

/// The compute-unit price that the list declares, read from its last price
/// directive.
pub fn declared_price_of(instructions: &[ProgramInstruction]) -> (price: Option<u64>)
    ensures
        price == declared_price(instruction_views(instructions@)),
{
    match find_last_directive(instructions, SET_COMPUTE_UNIT_PRICE) {
        Some(at) => {
            assert(instruction_views(instructions@)[at as int] == instructions@[at as int]@);
            read_price(&instructions[at].data)
        },
        None => None,
    }
}

/// The compute-unit limit that the list declares, read from its last limit
/// directive.
pub fn declared_limit_of(instructions: &[ProgramInstruction]) -> (limit: Option<u32>)
    ensures
        limit == declared_limit(instruction_views(instructions@)),
{
    match find_last_directive(instructions, SET_COMPUTE_UNIT_LIMIT) {
        Some(at) => {
            assert(instruction_views(instructions@)[at as int] == instructions@[at as int]@);
            read_limit(&instructions[at].data)
        },
        None => None,
    }
}

/// Puts the decoder's answer and the declared values together. Every
/// rejection, whatever its reason, leaves the transaction without details;
/// an accepted list always gives both fields.
pub fn resolve_priority_details(
    decoded: Result<BudgetLimits, TransactionError>,
    price: Option<u64>,
    limit: Option<u32>,
) -> (details: Option<TransactionPriorityDetails>)
    ensures
        decoded matches Ok(limits) ==> details == resolved_details(Some(limits), price, limit),
        decoded is Err ==> details is None,
        details matches Some(resolved) ==> resolved.compute_unit_limit <= u32::MAX,
{
    match decoded {
        Ok(limits) => Some(
            TransactionPriorityDetails {
                priority: match price {
                    Some(declared) => declared,
                    None => 0,
                },
                compute_unit_limit: match limit {
                    Some(declared) => u64::from(declared),
                    None => u64::from(limits.compute_unit_limit),
                },
            },
        ),
        Err(_) => None,
    }
}

} // verus!
