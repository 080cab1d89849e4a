//! What holds of every extraction.

use vstd::prelude::*;
use crate::budget::{decoded_budget_limits, BudgetLimits};
use crate::details::TransactionPriorityDetails;
use crate::directive::{
    addresses_budget_program, directive_kind, last_directive, last_of_each_kind, limit_in,
    price_in, superseded, SET_COMPUTE_UNIT_LIMIT, SET_COMPUTE_UNIT_PRICE,
};
use crate::extraction::{
    directives_readable, priority_details_of, readable_directive, resolved_details,
};
use crate::instruction::InstructionView;

verus! {

/// Every instruction that the filter leaves stood in the list.
pub proof fn lemma_kept_instructions_stood_in_the_list(instructions: Seq<InstructionView>)
    ensures
        forall|at: int|
            0 <= at < last_of_each_kind(instructions).len() ==> exists|from: int|
                0 <= from < instructions.len() && instructions[from] == #[trigger] last_of_each_kind(
                    instructions,
                )[at],
    decreases instructions.len(),
{
    let kept = last_of_each_kind(instructions);
    if instructions.len() > 0 {
        let rest = instructions.drop_first();
        lemma_kept_instructions_stood_in_the_list(rest);
        assert forall|at: int| 0 <= at < kept.len() implies exists|from: int|
            0 <= from < instructions.len() && instructions[from] == #[trigger] kept[at] by {
            if !superseded(instructions, 0) && at == 0 {
                assert(instructions[0] == kept[0]);
            } else {
                let below = if superseded(instructions, 0) {
                    at
                } else {
                    at - 1
                };
                assert(kept[at] == last_of_each_kind(rest)[below]);
                let from = choose|from: int|
                    0 <= from < rest.len() && rest[from] == last_of_each_kind(rest)[below];
                assert(instructions[from + 1] == kept[at]);
            }
        }
    }
}

/// Filtering a second time changes nothing.
pub proof fn lemma_filter_is_idempotent(instructions: Seq<InstructionView>)
    ensures
        last_of_each_kind(last_of_each_kind(instructions)) == last_of_each_kind(instructions),
    decreases instructions.len(),
{
    if instructions.len() > 0 {
        let rest = instructions.drop_first();
        lemma_filter_is_idempotent(rest);
        if !superseded(instructions, 0) {
            let kept = last_of_each_kind(instructions);
            assert(kept.drop_first() =~= last_of_each_kind(rest));
            if superseded(kept, 0) {
                let later = choose|later: int|
                    0 < later < kept.len() && #[trigger] directive_kind(kept[later])
                        == directive_kind(kept[0]);
                lemma_kept_instructions_stood_in_the_list(rest);
                assert(kept[later] == last_of_each_kind(rest)[later - 1]);
                let from = choose|from: int|
                    0 <= from < rest.len() && rest[from] == last_of_each_kind(rest)[later - 1];
                assert(directive_kind(instructions[from + 1]) == directive_kind(instructions[0]));
                assert(false);
            }
        }
    }
}

/// The last directive of a kind, told from the front of the list: it is the
/// last one behind the first instruction, or else the first instruction.
pub proof fn lemma_last_directive_from_the_front(instructions: Seq<InstructionView>, kind: u8)
    requires
        instructions.len() > 0,
    ensures
        last_directive(instructions, kind) == match last_directive(
            instructions.drop_first(),
            kind,
        ) {
            Some(directive) => Some(directive),
            None => if directive_kind(instructions[0]) == Some(kind) {
                Some(instructions[0])
            } else {
                None
            },
        },
    decreases instructions.len(),
{
    if instructions.len() == 1 {
        assert(instructions.drop_first() =~= Seq::empty());
        assert(instructions.drop_last() =~= Seq::empty());
    } else {
        let front = instructions.drop_last();
        lemma_last_directive_from_the_front(front, kind);
        assert(front.drop_first() =~= instructions.drop_first().drop_last());
        assert(instructions.drop_first().last() == instructions.last());
    }
}

/// A list that holds a directive of a kind has a last one of that kind.
pub proof fn lemma_held_directive_has_a_last(
    instructions: Seq<InstructionView>,
    kind: u8,
    at: int,
)
    requires
        0 <= at < instructions.len(),
        directive_kind(instructions[at]) == Some(kind),
    ensures
        last_directive(instructions, kind) is Some,
    decreases instructions.len(),
{
    if at < instructions.len() - 1 && directive_kind(instructions.last()) != Some(kind) {
        lemma_held_directive_has_a_last(instructions.drop_last(), kind, at);
    }
}

/// A directive that no later one of its kind follows is the last of its kind.
pub proof fn lemma_last_directive_is_the_one_nothing_follows(
    instructions: Seq<InstructionView>,
    kind: u8,
    at: int,
)
    requires
        0 <= at < instructions.len(),
        directive_kind(instructions[at]) == Some(kind),
        forall|later: int|
            at < later < instructions.len() ==> directive_kind(#[trigger] instructions[later])
                != Some(kind),
    ensures
        last_directive(instructions, kind) == Some(instructions[at]),
    decreases instructions.len(),
{
    if at < instructions.len() - 1 {
        assert(directive_kind(instructions[instructions.len() - 1]) != Some(kind));
        lemma_last_directive_is_the_one_nothing_follows(instructions.drop_last(), kind, at);
    }
}

/// A list without a directive of a kind has no last one of that kind.
pub proof fn lemma_absent_directive_has_no_last(instructions: Seq<InstructionView>, kind: u8)
    requires
        forall|at: int|
            0 <= at < instructions.len() ==> directive_kind(#[trigger] instructions[at]) != Some(
                kind,
            ),
    ensures
        last_directive(instructions, kind) is None,
    decreases instructions.len(),
{
    if instructions.len() > 0 {
        assert(directive_kind(instructions[instructions.len() - 1]) != Some(kind));
        lemma_absent_directive_has_no_last(instructions.drop_last(), kind);
    }
}

/// The filter leaves the last directive of every kind in the list.
pub proof fn lemma_filter_keeps_the_last_directive(instructions: Seq<InstructionView>, kind: u8)
    ensures
        last_directive(last_of_each_kind(instructions), kind) == last_directive(
            instructions,
            kind,
        ),
    decreases instructions.len(),
{
    if instructions.len() > 0 {
        let rest = instructions.drop_first();
        lemma_filter_keeps_the_last_directive(rest, kind);
        lemma_last_directive_from_the_front(instructions, kind);
        if superseded(instructions, 0) {
            if directive_kind(instructions[0]) == Some(kind) {
                let later = choose|later: int|
                    0 < later < instructions.len() && #[trigger] directive_kind(
                        instructions[later],
                    ) == directive_kind(instructions[0]);
                assert(rest[later - 1] == instructions[later]);
                lemma_held_directive_has_a_last(rest, kind, later - 1);
            }
        } else {
            let kept = last_of_each_kind(instructions);
            assert(kept.drop_first() =~= last_of_each_kind(rest));
            lemma_last_directive_from_the_front(kept, kind);
        }
    }
}

/// Where every directive of a list can be read, so can every directive that
/// the filter leaves.
pub proof fn lemma_filter_keeps_directives_readable(instructions: Seq<InstructionView>)
    ensures
        directives_readable(instructions) ==> directives_readable(
            last_of_each_kind(instructions),
        ),
{
    let kept = last_of_each_kind(instructions);
    lemma_kept_instructions_stood_in_the_list(instructions);
    if directives_readable(instructions) {
        assert forall|at: int|
            0 <= at < kept.len() && addresses_budget_program(
                #[trigger] kept[at],
            ) implies readable_directive(kept[at]) by {
            let from = choose|from: int|
                0 <= from < instructions.len() && instructions[from] == kept[at];
            assert(addresses_budget_program(instructions[from]));
        }
    }
}

/// The later directive wins: a list in which kinds of directive are
/// repeated, all of them readable, has the priority details of the same
/// list with only the last directive of each kind left in it.
pub proof fn lemma_later_directive_wins(instructions: Seq<InstructionView>)
    ensures
        directives_readable(instructions) ==> priority_details_of(instructions)
            == priority_details_of(last_of_each_kind(instructions)),
{
    lemma_filter_keeps_directives_readable(instructions);
    lemma_filter_is_idempotent(instructions);
    lemma_filter_keeps_the_last_directive(instructions, SET_COMPUTE_UNIT_LIMIT);
    lemma_filter_keeps_the_last_directive(instructions, SET_COMPUTE_UNIT_PRICE);
}

/// Where a transaction has details, their compute-unit limit is the value
/// that the last limit directive declares, whole, wherever that directive
/// stands among the other instructions and whatever earlier limit
/// directives declared.
pub proof fn lemma_last_limit_directive_decides(instructions: Seq<InstructionView>, at: int)
    requires
        0 <= at < instructions.len(),
        directive_kind(instructions[at]) == Some(SET_COMPUTE_UNIT_LIMIT),
        forall|later: int|
            at < later < instructions.len() ==> directive_kind(#[trigger] instructions[later])
                != Some(SET_COMPUTE_UNIT_LIMIT),
    ensures
        0 <= limit_in(instructions[at].data) <= u32::MAX,
        priority_details_of(instructions) matches Some(details) ==> details.compute_unit_limit
            == limit_in(instructions[at].data),
{
    lemma_last_directive_is_the_one_nothing_follows(instructions, SET_COMPUTE_UNIT_LIMIT, at);
    assert(addresses_budget_program(instructions[at]));
}

/// Where a transaction has details, their priority is the value that the
/// last price directive declares, whole, wherever that directive stands
/// among the other instructions and whatever earlier price directives
/// declared.
pub proof fn lemma_last_price_directive_decides(instructions: Seq<InstructionView>, at: int)
    requires
        0 <= at < instructions.len(),
        directive_kind(instructions[at]) == Some(SET_COMPUTE_UNIT_PRICE),
        forall|later: int|
            at < later < instructions.len() ==> directive_kind(#[trigger] instructions[later])
                != Some(SET_COMPUTE_UNIT_PRICE),
    ensures
        0 <= price_in(instructions[at].data) <= u64::MAX,
        priority_details_of(instructions) matches Some(details) ==> details.priority == price_in(
            instructions[at].data,
        ),
{
    lemma_last_directive_is_the_one_nothing_follows(instructions, SET_COMPUTE_UNIT_PRICE, at);
    assert(addresses_budget_program(instructions[at]));
}

/// Without a price directive the priority of the details is 0, whatever
/// else the list holds: heap-frame requests, a limit directive, other
/// programs' instructions.
pub proof fn lemma_priority_is_zero_without_a_price_directive(instructions: Seq<InstructionView>)
    requires
        forall|at: int|
            0 <= at < instructions.len() ==> directive_kind(#[trigger] instructions[at]) != Some(
                SET_COMPUTE_UNIT_PRICE,
            ),
    ensures
        priority_details_of(instructions) matches Some(details) ==> details.priority == 0,
{
    lemma_absent_directive_has_no_last(instructions, SET_COMPUTE_UNIT_PRICE);
}

/// Without a limit directive the compute-unit limit of the details is the
/// default: the limit that the decoder resolves for the list with the last
/// directive of each kind.
pub proof fn lemma_limit_is_the_decoder_default_without_a_limit_directive(
    instructions: Seq<InstructionView>,
)
    requires
        forall|at: int|
            0 <= at < instructions.len() ==> directive_kind(#[trigger] instructions[at]) != Some(
                SET_COMPUTE_UNIT_LIMIT,
            ),
    ensures
        priority_details_of(instructions) matches Some(details) ==> (decoded_budget_limits(
            last_of_each_kind(instructions),
        ) matches Some(limits) && details.compute_unit_limit == limits.compute_unit_limit),
{
    lemma_absent_directive_has_no_last(instructions, SET_COMPUTE_UNIT_LIMIT);
}

/// A list that holds no directive at all is left as it is by the filter.
pub proof fn lemma_filter_leaves_a_list_without_directives(instructions: Seq<InstructionView>)
    requires
        forall|at: int|
            0 <= at < instructions.len() ==> directive_kind(#[trigger] instructions[at]) is None,
    ensures
        last_of_each_kind(instructions) == instructions,
    decreases instructions.len(),
{
    if instructions.len() > 0 {
        let rest = instructions.drop_first();
        assert forall|at: int| 0 <= at < rest.len() implies directive_kind(#[trigger] rest[at]) is None by {
            assert(rest[at] == instructions[at + 1]);
        }
        lemma_filter_leaves_a_list_without_directives(rest);
        assert(directive_kind(instructions[0]) is None);
        assert(seq![instructions[0]] + rest =~= instructions);
    }
}

/// A transaction without compute-budget instructions has details exactly
/// where the decoder accepts its instructions as they are, and then
/// priority 0 and the decoder's default limit.
pub proof fn lemma_no_budget_instruction_gives_the_defaults(instructions: Seq<InstructionView>)
    requires
        forall|at: int|
            0 <= at < instructions.len() ==> !addresses_budget_program(#[trigger] instructions[at]),
    ensures
        priority_details_of(instructions) == match decoded_budget_limits(instructions) {
            Some(limits) => Some(
                TransactionPriorityDetails {
                    priority: 0,
                    compute_unit_limit: limits.compute_unit_limit as u64,
                },
            ),
            None => None,
        },
{
    lemma_filter_leaves_a_list_without_directives(instructions);
    lemma_absent_directive_has_no_last(instructions, SET_COMPUTE_UNIT_PRICE);
    lemma_absent_directive_has_no_last(instructions, SET_COMPUTE_UNIT_LIMIT);
}

/// When success is owed: a transaction has details exactly where every one
/// of its compute-budget directives can be read and the decoder accepts the
/// list with the last directive of each kind. What another program's
/// instruction holds plays no part in it.
pub proof fn lemma_details_exist_where_directives_are_sound(instructions: Seq<InstructionView>)
    ensures
        priority_details_of(instructions) is Some <==> directives_readable(instructions)
            && decoded_budget_limits(last_of_each_kind(instructions)) is Some,
{
}

/// Memory sizing never reaches the details: what the decoder resolves for
/// the heap and for the loaded accounts plays no part in them.
pub proof fn lemma_details_ignore_memory_sizing(
    first: BudgetLimits,
    second: BudgetLimits,
    price: Option<u64>,
    limit: Option<u32>,
)
    requires
        first.compute_unit_limit == second.compute_unit_limit,
    ensures
        resolved_details(Some(first), price, limit) == resolved_details(Some(second), price, limit),
{
}

} // verus!
