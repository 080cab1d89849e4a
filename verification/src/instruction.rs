//! A transaction's instructions as plain values.

use vstd::prelude::*;

verus! {

/// One instruction of a transaction together with the identifier of the
/// program that it addresses, as the transaction's account list resolves it.
#[derive(Clone, Debug, PartialEq, Eq)]
pub struct ProgramInstruction {
    /// The 32 bytes of the addressed program's identifier.
    pub program_id: [u8; 32],
    /// Where the program stands in the transaction's account list.
    pub program_id_index: u8,
    /// The places in the account list of the accounts handed to the program.
    pub accounts: Vec<u8>,
    /// The payload that the program reads.
    pub data: Vec<u8>,
}

/// What a [`ProgramInstruction`] holds, as mathematical values.
pub struct InstructionView {
    pub program_id: Seq<u8>,
    pub program_id_index: u8,
    pub accounts: Seq<u8>,
    pub data: Seq<u8>,
}

impl View for ProgramInstruction {
    type V = InstructionView;

    open spec fn view(&self) -> InstructionView {
        InstructionView {
            program_id: self.program_id@,
            program_id_index: self.program_id_index,
            accounts: self.accounts@,
            data: self.data@,
        }
    }
}

/// The views of a list of instructions, in the same order.
pub open spec fn instruction_views(instructions: Seq<ProgramInstruction>) -> Seq<InstructionView> {
    instructions.map_values(|instruction: ProgramInstruction| instruction@)
}

} // verus!
