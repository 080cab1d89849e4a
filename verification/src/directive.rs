//! The compute-budget directives of a transaction, read from the bytes of
//! its instructions.

use vstd::prelude::*;
use crate::instruction::{instruction_views, InstructionView, ProgramInstruction};

verus! {

/// The identifier of the compute-budget program,
/// `ComputeBudget111111111111111111111111111111` in base 58.
pub const COMPUTE_BUDGET_PROGRAM_ID: [u8; 32] = [
    3, 6, 70, 111, 229, 33, 23, 50, 255, 236, 173, 186, 114, 195, 155, 231,
    188, 140, 229, 187, 197, 247, 18, 107, 44, 67, 155, 58, 64, 0, 0, 0,
];

/// The first payload byte of a "set compute unit limit" directive.
pub const SET_COMPUTE_UNIT_LIMIT: u8 = 2;

/// The first payload byte of a "set compute unit price" directive.
pub const SET_COMPUTE_UNIT_PRICE: u8 = 3;

/// Whether the instruction is addressed to the compute-budget program.
pub open spec fn addresses_budget_program(instruction: InstructionView) -> bool {
    instruction.program_id == COMPUTE_BUDGET_PROGRAM_ID@
}

/// The kind of a compute-budget directive, its first payload byte. An
/// instruction of another program has none, nor has one without a payload.
pub open spec fn directive_kind(instruction: InstructionView) -> Option<u8> {
    if addresses_budget_program(instruction) && instruction.data.len() > 0 {
        Some(instruction.data[0])
    } else {
        None
    }
}

/// Whether the instruction is addressed to the compute-budget program.
pub fn is_budget_instruction(instruction: &ProgramInstruction) -> (addressed: bool)
    ensures
        addressed == addresses_budget_program(instruction@),
{
    let mut at: usize = 0;
    while at < 32
        invariant
            at <= 32,
            forall|before: int|
                0 <= before < at ==> instruction.program_id@[before]
                    == COMPUTE_BUDGET_PROGRAM_ID@[before],
        decreases 32 - at,
    {
        if instruction.program_id[at] != COMPUTE_BUDGET_PROGRAM_ID[at] {
            return false;
        }
        at += 1;
    }
    assert(instruction.program_id@ =~= COMPUTE_BUDGET_PROGRAM_ID@);
    true
}

/// The kind of the directive that the instruction holds, if it holds one.
pub fn kind_of(instruction: &ProgramInstruction) -> (kind: Option<u8>)
    ensures
        kind == directive_kind(instruction@),
{
    if is_budget_instruction(instruction) && instruction.data.len() > 0 {
        Some(instruction.data[0])
    } else {
        None
    }
}

/// A second instruction that holds what the first one holds.
pub(crate) fn copy_of(instruction: &ProgramInstruction) -> (copy: ProgramInstruction)
    ensures
        copy@ == instruction@,
{
    let copy = ProgramInstruction {
        program_id: instruction.program_id,
        program_id_index: instruction.program_id_index,
        accounts: instruction.accounts.clone(),
        data: instruction.data.clone(),
    };
    assert(copy.accounts@ =~= instruction.accounts@);
    assert(copy.data@ =~= instruction.data@);
    copy
}

/// Whether a later instruction of the list holds a directive of the kind
/// that the instruction at this place holds.
pub open spec fn superseded(instructions: Seq<InstructionView>, at: int) -> bool {
    &&& directive_kind(instructions[at]) is Some
    &&& exists|later: int|
        at < later < instructions.len() && #[trigger] directive_kind(instructions[later])
            == directive_kind(instructions[at])
}

/// The list without the directives that a later one of their kind
/// supersedes: of each kind only the last is left, and every other
/// instruction stays where it stood.
pub open spec fn last_of_each_kind(instructions: Seq<InstructionView>) -> Seq<InstructionView>
    decreases instructions.len(),
{
    if instructions.len() == 0 {
        Seq::empty()
    } else if superseded(instructions, 0) {
        last_of_each_kind(instructions.drop_first())
    } else {
        seq![instructions[0]] + last_of_each_kind(instructions.drop_first())
    }
}

/// Whether a later instruction of the list holds a directive of this kind.
fn is_superseded(instructions: &[ProgramInstruction], at: usize) -> (gone: bool)
    requires
        at < instructions.len(),
    ensures
        gone == superseded(instruction_views(instructions@), at as int),
{
    let ghost views = instruction_views(instructions@);
    assert(views[at as int] == instructions@[at as int]@);
    let kind = match kind_of(&instructions[at]) {
        Some(kind) => kind,
        None => {
            return false;
        },
    };
    let mut later: usize = at + 1;
    while later < instructions.len()
        invariant
            at < later <= instructions.len(),
            views == instruction_views(instructions@),
            directive_kind(views[at as int]) == Some(kind),
            forall|seen: int| at < seen < later ==> directive_kind(views[seen]) != Some(kind),
        decreases instructions.len() - later,
    {
        assert(views[later as int] == instructions@[later as int]@);
        match kind_of(&instructions[later]) {
            Some(other) => {
                if other == kind {
                    assert(directive_kind(views[later as int]) == directive_kind(
                        views[at as int],
                    ));
                    return true;
                }
            },
            None => {},
        }
        later += 1;
    }
    false
}

/// Copies the list, leaving out each directive that a later one of its kind
/// supersedes.
pub fn keep_last_of_each_kind(instructions: &[ProgramInstruction]) -> (kept: Vec<ProgramInstruction>)
    ensures
        instruction_views(kept@) == last_of_each_kind(instruction_views(instructions@)),
{
    let ghost views = instruction_views(instructions@);
    let mut kept: Vec<ProgramInstruction> = Vec::new();
    let mut at: usize = 0;
    assert(views.skip(0) =~= views);
    assert(instruction_views(kept@) =~= Seq::empty());
    while at < instructions.len()
        invariant
            at <= instructions.len(),
            views == instruction_views(instructions@),
            last_of_each_kind(views) == instruction_views(kept@) + last_of_each_kind(
                views.skip(at as int),
            ),
        decreases instructions.len() - at,
    {
        let ghost rest = views.skip(at as int);
        let ghost before = instruction_views(kept@);
        assert(rest.drop_first() =~= views.skip(at + 1));
        assert(superseded(rest, 0) == superseded(views, at as int)) by {
            if superseded(rest, 0) {
                let later = choose|later: int|
                    0 < later < rest.len() && #[trigger] directive_kind(rest[later])
                        == directive_kind(rest[0]);
                assert(directive_kind(views[at + later]) == directive_kind(views[at as int]));
            }
            if superseded(views, at as int) {
                let later = choose|later: int|
                    at < later < views.len() && #[trigger] directive_kind(views[later])
                        == directive_kind(views[at as int]);
                assert(directive_kind(rest[later - at]) == directive_kind(rest[0]));
            }
        }
        if !is_superseded(instructions, at) {
            kept.push(copy_of(&instructions[at]));
            assert(instruction_views(kept@) =~= before + seq![rest[0]]);
            assert(before + seq![rest[0]] + last_of_each_kind(rest.drop_first()) =~= before + (
                seq![rest[0]] + last_of_each_kind(rest.drop_first())));
        }
        at += 1;
    }
    assert(views.skip(at as int) =~= Seq::empty());
    assert(last_of_each_kind(views) =~= instruction_views(kept@));
    kept
}

/// The last directive of a kind in the list, if the list holds one.
pub open spec fn last_directive(instructions: Seq<InstructionView>, kind: u8) -> Option<InstructionView>
    decreases instructions.len(),
{
    if instructions.len() == 0 {
        None
    } else if directive_kind(instructions.last()) == Some(kind) {
        Some(instructions.last())
    } else {
        last_directive(instructions.drop_last(), kind)
    }
}

/// Where the last directive of a kind stands in the list.
pub fn find_last_directive(instructions: &[ProgramInstruction], kind: u8) -> (found: Option<usize>)
    ensures
        found matches Some(at) ==> at < instructions.len() && directive_kind(instructions@[at as int]@)
            == Some(kind) && last_directive(instruction_views(instructions@), kind) == Some(
            instructions@[at as int]@,
        ),
        found is None ==> last_directive(instruction_views(instructions@), kind) is None,
{
    let ghost views = instruction_views(instructions@);
    let mut end: usize = instructions.len();
    assert(views.take(end as int) =~= views);
    while end > 0
        invariant
            end <= instructions.len(),
            views == instruction_views(instructions@),
            last_directive(views, kind) == last_directive(views.take(end as int), kind),
        decreases end,
    {
        let ghost front = views.take(end as int);
        assert(front.last() == instructions@[end - 1]@);
        assert(front.drop_last() =~= views.take(end - 1));
        match kind_of(&instructions[end - 1]) {
            Some(held) => {
                if held == kind {
                    return Some(end - 1);
                }
            },
            None => {},
        }
        end -= 1;
    }
    None
}

/// The value that the payload of a "set compute unit limit" directive
/// declares: the four bytes behind the kind, least significant first.
pub open spec fn limit_in(data: Seq<u8>) -> int {
    data[1] + 0x100 * data[2] + 0x1_0000 * data[3] + 0x100_0000 * data[4]
}

/// The value that the payload of a "set compute unit price" directive
/// declares: the eight bytes behind the kind, least significant first.
pub open spec fn price_in(data: Seq<u8>) -> int {
    data[1] + 0x100 * data[2] + 0x1_0000 * data[3] + 0x100_0000 * data[4] + 0x1_0000_0000
        * data[5] + 0x100_0000_0000 * data[6] + 0x1_0000_0000_0000 * data[7]
        + 0x100_0000_0000_0000 * data[8]
}

/// The compute-unit limit that the list declares: the value of its last
/// "set compute unit limit" directive, where the payload is long enough to
/// hold one.
pub open spec fn declared_limit(instructions: Seq<InstructionView>) -> Option<u32> {
    match last_directive(instructions, SET_COMPUTE_UNIT_LIMIT) {
        Some(directive) => if directive.data.len() >= 5 {
            Some(limit_in(directive.data) as u32)
        } else {
            None
        },
        None => None,
    }
}

/// The compute-unit price that the list declares: the value of its last
/// "set compute unit price" directive, where the payload is long enough to
/// hold one.
pub open spec fn declared_price(instructions: Seq<InstructionView>) -> Option<u64> {
    match last_directive(instructions, SET_COMPUTE_UNIT_PRICE) {
        Some(directive) => if directive.data.len() >= 9 {
            Some(price_in(directive.data) as u64)
        } else {
            None
        },
        None => None,
    }
}

/// Reads the value of a "set compute unit limit" directive from its payload.
pub fn read_limit(data: &Vec<u8>) -> (limit: Option<u32>)
    ensures
        data.len() >= 5 ==> limit == Some(limit_in(data@) as u32) && limit_in(data@) <= u32::MAX,
        data.len() < 5 ==> limit is None,
{
    if data.len() < 5 {
        return None;
    }
    let low: u32 = data[1] as u32 + 0x100 * (data[2] as u32);
    let high: u32 = data[3] as u32 + 0x100 * (data[4] as u32);
    Some(low + 0x1_0000 * high)
}

/// Reads the value of a "set compute unit price" directive from its payload.
pub fn read_price(data: &Vec<u8>) -> (price: Option<u64>)
    ensures
        data.len() >= 9 ==> price == Some(price_in(data@) as u64) && price_in(data@) <= u64::MAX,
        data.len() < 9 ==> price is None,
{
    if data.len() < 9 {
        return None;
    }
    let first: u64 = data[1] as u64 + 0x100 * (data[2] as u64);
    let second: u64 = data[3] as u64 + 0x100 * (data[4] as u64);
    let third: u64 = data[5] as u64 + 0x100 * (data[6] as u64);
    let fourth: u64 = data[7] as u64 + 0x100 * (data[8] as u64);
    let low: u64 = first + 0x1_0000 * second;
    let high: u64 = third + 0x1_0000 * fourth;
    Some(low + 0x1_0000_0000 * high)
}

} // verus!
