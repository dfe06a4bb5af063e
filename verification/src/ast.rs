use vstd::prelude::*;
use crate::lit::Lit;

verus! {

/// One of the eight general-purpose registers.
#[derive(Debug, PartialEq, Eq, Structural, Clone, Copy)]
pub enum Register {
    R0,
    R1,
    R2,
    R3,
    R4,
    R5,
    R6,
    R7,
}

impl Register {
    /// The three-bit number that stands for the register in an instruction word.
    pub open spec fn spec_id(&self) -> u16 {
        match self {
            Register::R0 => 0,
            Register::R1 => 1,
            Register::R2 => 2,
            Register::R3 => 3,
            Register::R4 => 4,
            Register::R5 => 5,
            Register::R6 => 6,
            Register::R7 => 7,
        }
    }

    /// The register's name as it is written in assembly text.
    pub open spec fn spec_name(&self) -> Seq<char> {
        match self {
            Register::R0 => "r0"@,
            Register::R1 => "r1"@,
            Register::R2 => "r2"@,
            Register::R3 => "r3"@,
            Register::R4 => "r4"@,
            Register::R5 => "r5"@,
            Register::R6 => "r6"@,
            Register::R7 => "r7"@,
        }
    }

    /// The code, as it is packed into an instruction word.
    #[verifier::when_used_as_spec(spec_id)]
    pub fn id(&self) -> (r: u16)
        ensures
            r == self.spec_id(),
            r < 8,
    {
        match self {
            Register::R0 => 0,
            Register::R1 => 1,
            Register::R2 => 2,
            Register::R3 => 3,
            Register::R4 => 4,
            Register::R5 => 5,
            Register::R6 => 6,
            Register::R7 => 7,
        }
    }

    /// The name, as it is written in assembly text.
    pub fn name(&self) -> (s: &'static str)
        ensures
            s@ == self.spec_name(),
    {
        match self {
            Register::R0 => "r0",
            Register::R1 => "r1",
            Register::R2 => "r2",
            Register::R3 => "r3",
            Register::R4 => "r4",
            Register::R5 => "r5",
            Register::R6 => "r6",
            Register::R7 => "r7",
        }
    }
}

/// A register written between parentheses: the operand names the memory
/// cell whose address the register holds.
#[derive(Debug, PartialEq, Eq, Structural, Clone, Copy)]
pub struct Parenthesized(pub Register);

/// An instruction as it is written, before its literal is read as a number.
#[allow(inconsistent_fields)]
#[derive(Debug, PartialEq, Eq)]
pub enum Instruction {
    LD { dst: Register, src: Parenthesized },
    LDI { dst: Register, src: Lit },
    ST { dst: Parenthesized, src: Register },
    ADD { dst: Register, src: Register },
    ADDI { dst: Register, src: Lit },
}

/// What an [`Instruction`] stands for in contracts: a literal is its text.
#[allow(inconsistent_fields)]
pub enum InstructionView {
    LD { dst: Register, src: Parenthesized },
    LDI { dst: Register, src: Seq<char> },
    ST { dst: Parenthesized, src: Register },
    ADD { dst: Register, src: Register },
    ADDI { dst: Register, src: Seq<char> },
}

impl View for Instruction {
    type V = InstructionView;

    open spec fn view(&self) -> InstructionView {
        match self {
            Instruction::LD { dst, src } => InstructionView::LD { dst: *dst, src: *src },
            Instruction::LDI { dst, src } => InstructionView::LDI { dst: *dst, src: src@ },
            Instruction::ST { dst, src } => InstructionView::ST { dst: *dst, src: *src },
            Instruction::ADD { dst, src } => InstructionView::ADD { dst: *dst, src: *src },
            Instruction::ADDI { dst, src } => InstructionView::ADDI { dst: *dst, src: src@ },
        }
    }
}

impl Clone for Instruction {
    fn clone(&self) -> (r: Self)
        ensures
            r@ == self@,
    {
        match self {
            Instruction::LD { dst, src } => Instruction::LD { dst: *dst, src: *src },
            Instruction::LDI { dst, src } => Instruction::LDI { dst: *dst, src: src.clone() },
            Instruction::ST { dst, src } => Instruction::ST { dst: *dst, src: *src },
            Instruction::ADD { dst, src } => Instruction::ADD { dst: *dst, src: *src },
            Instruction::ADDI { dst, src } => Instruction::ADDI { dst: *dst, src: src.clone() },
        }
    }
}

} // verus!
