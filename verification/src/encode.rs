use vstd::prelude::*;
use crate::ast::{Instruction, InstructionView};
use crate::error::{AsmError, AsmErrorView};
use crate::lit::{literal_value, Lit};
use crate::mnemonic::{
    FunctR, InstructionI, InstructionR, Mnemonic, MnemonicView, OpcodeI,
};

verus! {

/// The instruction that a written instruction stands for. The register in
/// parentheses holds the address: it is the source of a load and the
/// destination of a store. A literal is read as a signed decimal number,
/// which must lie in `-128..=127`.
pub open spec fn mnemonic_of(line: InstructionView) -> Result<MnemonicView, AsmErrorView> {
    match line {
        InstructionView::LD { dst, src } => Ok(
            MnemonicView::R(InstructionR { funct: FunctR::LD, dst: dst, src: src.0 }),
        ),
        InstructionView::LDI { dst, src } => match literal_value(src) {
            Ok(immediate) => Ok(
                MnemonicView::I(InstructionI { opcode: OpcodeI::LDI, dst: dst, immediate }),
            ),
            Err(e) => Err(e),
        },
        InstructionView::ST { dst, src } => Ok(
            MnemonicView::R(InstructionR { funct: FunctR::ST, dst: dst.0, src: src }),
        ),
        InstructionView::ADD { dst, src } => Ok(
            MnemonicView::R(InstructionR { funct: FunctR::ADD, dst: dst, src: src }),
        ),
        InstructionView::ADDI { dst, src } => match literal_value(src) {
            Ok(immediate) => Ok(
                MnemonicView::I(InstructionI { opcode: OpcodeI::ADDI, dst: dst, immediate }),
            ),
            Err(e) => Err(e),
        },
    }
}

/// Turns a written instruction into the instruction it stands for.
pub fn encode(line: Instruction) -> (r: Result<Mnemonic, AsmError>)
    ensures
        match mnemonic_of(line@) {
            Ok(expected) => r matches Ok(m) && m@ == expected,
            Err(error) => r matches Err(e) && e@ == error,
        },
{
    match line {
        Instruction::LD { dst, src } => Ok(
            Mnemonic::R(InstructionR { funct: FunctR::LD, dst: dst, src: src.0 }),
        ),
        Instruction::LDI { dst, src } => match src {
            Lit::Int(lit) => match lit.to_immediate() {
                Ok(immediate) => Ok(
                    Mnemonic::I(
                        InstructionI { opcode: OpcodeI::LDI, dst: dst, immediate: immediate },
                    ),
                ),
                Err(e) => Err(e),
            },
        },
        Instruction::ST { dst, src } => Ok(
            Mnemonic::R(InstructionR { funct: FunctR::ST, dst: dst.0, src: src }),
        ),
        Instruction::ADD { dst, src } => Ok(
            Mnemonic::R(InstructionR { funct: FunctR::ADD, dst: dst, src: src }),
        ),
        Instruction::ADDI { dst, src } => match src {
            Lit::Int(lit) => match lit.to_immediate() {
                Ok(immediate) => Ok(
                    Mnemonic::I(
                        InstructionI { opcode: OpcodeI::ADDI, dst: dst, immediate: immediate },
                    ),
                ),
                Err(e) => Err(e),
            },
        },
    }
}

} // verus!
