use vstd::prelude::*;
use vstd::string::StringExecFns;
use crate::ast::Register;
use crate::text::{integer_text, push_integer};

verus! {

/// The register operations, loads and stores: the function code of an
/// R-format instruction.
#[derive(Debug, PartialEq, Eq, Structural, Clone, Copy)]
pub enum FunctR {
    NOP,
    MV,
    AND,
    OR,
    SL,
    SR,
    ADD,
    SUB,
    ST,
    LD,
}

impl FunctR {
    /// The five-bit function code.
    pub open spec fn spec_id(&self) -> u16 {
        match self {
            FunctR::NOP => 0b00000,
            FunctR::MV => 0b00001,
            FunctR::AND => 0b00010,
            FunctR::OR => 0b00011,
            FunctR::SL => 0b00100,
            FunctR::SR => 0b00101,
            FunctR::ADD => 0b00110,
            FunctR::SUB => 0b00111,
            FunctR::ST => 0b01000,
            FunctR::LD => 0b01001,
        }
    }

    /// The keyword that names the operation.
    pub open spec fn spec_name(&self) -> Seq<char> {
        match self {
            FunctR::NOP => "NOP"@,
            FunctR::MV => "MV"@,
            FunctR::AND => "AND"@,
            FunctR::OR => "OR"@,
            FunctR::SL => "SL"@,
            FunctR::SR => "SR"@,
            FunctR::ADD => "ADD"@,
            FunctR::SUB => "SUB"@,
            FunctR::ST => "ST"@,
            FunctR::LD => "LD"@,
        }
    }

    /// The code, as it is packed into an instruction word.
    #[verifier::when_used_as_spec(spec_id)]
    pub fn id(&self) -> (r: u16)
        ensures
            r == self.spec_id(),
            r < 32,
    {
        match self {
            FunctR::NOP => 0b00000,
            FunctR::MV => 0b00001,
            FunctR::AND => 0b00010,
            FunctR::OR => 0b00011,
            FunctR::SL => 0b00100,
            FunctR::SR => 0b00101,
            FunctR::ADD => 0b00110,
            FunctR::SUB => 0b00111,
            FunctR::ST => 0b01000,
            FunctR::LD => 0b01001,
        }
    }

    /// The name, as it is written in assembly text.
    pub fn name(&self) -> (s: &'static str)
        ensures
            s@ == self.spec_name(),
    {
        match self {
            FunctR::NOP => "NOP",
            FunctR::MV => "MV",
            FunctR::AND => "AND",
            FunctR::OR => "OR",
            FunctR::SL => "SL",
            FunctR::SR => "SR",
            FunctR::ADD => "ADD",
            FunctR::SUB => "SUB",
            FunctR::ST => "ST",
            FunctR::LD => "LD",
        }
    }
}

/// The operations that take a register and an immediate: the opcode of an
/// I-format instruction.
#[derive(Debug, PartialEq, Eq, Structural, Clone, Copy)]
pub enum OpcodeI {
    LDI,
    LDIU,
    ADDI,
    ADDIU,
    LDHI,
}

impl OpcodeI {
    /// The five-bit opcode.
    pub open spec fn spec_id(&self) -> u16 {
        match self {
            OpcodeI::LDI => 0b01000,
            OpcodeI::LDIU => 0b01001,
            OpcodeI::ADDI => 0b01100,
            OpcodeI::ADDIU => 0b01101,
            OpcodeI::LDHI => 0b01010,
        }
    }

    /// The keyword that names the operation.
    pub open spec fn spec_name(&self) -> Seq<char> {
        match self {
            OpcodeI::LDI => "LDI"@,
            OpcodeI::LDIU => "LDIU"@,
            OpcodeI::ADDI => "ADDI"@,
            OpcodeI::ADDIU => "ADDIU"@,
            OpcodeI::LDHI => "LDHI"@,
        }
    }

    /// The code, as it is packed into an instruction word.
    #[verifier::when_used_as_spec(spec_id)]
    pub fn id(&self) -> (r: u16)
        ensures
            r == self.spec_id(),
            r < 32,
    {
        match self {
            OpcodeI::LDI => 0b01000,
            OpcodeI::LDIU => 0b01001,
            OpcodeI::ADDI => 0b01100,
            OpcodeI::ADDIU => 0b01101,
            OpcodeI::LDHI => 0b01010,
        }
    }

    /// The name, as it is written in assembly text.
    pub fn name(&self) -> (s: &'static str)
        ensures
            s@ == self.spec_name(),
    {
        match self {
            OpcodeI::LDI => "LDI",
            OpcodeI::LDIU => "LDIU",
            OpcodeI::ADDI => "ADDI",
            OpcodeI::ADDIU => "ADDIU",
            OpcodeI::LDHI => "LDHI",
        }
    }
}

/// The conditional branches: the opcode of a B-format instruction.
#[derive(Debug, PartialEq, Eq, Structural, Clone, Copy)]
pub enum OpcodeB {
    BEZ,
    BNZ,
    BPL,
    BMI,
}

impl OpcodeB {
    /// The five-bit opcode.
    pub open spec fn spec_id(&self) -> u16 {
        match self {
            OpcodeB::BEZ => 0b10000,
            OpcodeB::BNZ => 0b10001,
            OpcodeB::BPL => 0b10010,
            OpcodeB::BMI => 0b10011,
        }
    }

    /// The keyword that names the operation.
    pub open spec fn spec_name(&self) -> Seq<char> {
        match self {
            OpcodeB::BEZ => "BEZ"@,
            OpcodeB::BNZ => "BNZ"@,
            OpcodeB::BPL => "BPL"@,
            OpcodeB::BMI => "BMI"@,
        }
    }

    /// The code, as it is packed into an instruction word.
    #[verifier::when_used_as_spec(spec_id)]
    pub fn id(&self) -> (r: u16)
        ensures
            r == self.spec_id(),
            r < 32,
    {
        match self {
            OpcodeB::BEZ => 0b10000,
            OpcodeB::BNZ => 0b10001,
            OpcodeB::BPL => 0b10010,
            OpcodeB::BMI => 0b10011,
        }
    }

    /// The name, as it is written in assembly text.
    pub fn name(&self) -> (s: &'static str)
        ensures
            s@ == self.spec_name(),
    {
        match self {
            OpcodeB::BEZ => "BEZ",
            OpcodeB::BNZ => "BNZ",
            OpcodeB::BPL => "BPL",
            OpcodeB::BMI => "BMI",
        }
    }
}

/// The jumps to a label: the opcode of a J-format instruction.
#[derive(Debug, PartialEq, Eq, Structural, Clone, Copy)]
pub enum OpcodeJ {
    JMP,
    JAL,
}

impl OpcodeJ {
    /// The five-bit opcode.
    pub open spec fn spec_id(&self) -> u16 {
        match self {
            OpcodeJ::JMP => 0b10100,
            OpcodeJ::JAL => 0b10101,
        }
    }

    /// The keyword that names the operation.
    pub open spec fn spec_name(&self) -> Seq<char> {
        match self {
            OpcodeJ::JMP => "JMP"@,
            OpcodeJ::JAL => "JAL"@,
        }
    }

    /// The code, as it is packed into an instruction word.
    #[verifier::when_used_as_spec(spec_id)]
    pub fn id(&self) -> (r: u16)
        ensures
            r == self.spec_id(),
            r < 32,
    {
        match self {
            OpcodeJ::JMP => 0b10100,
            OpcodeJ::JAL => 0b10101,
        }
    }

    /// The name, as it is written in assembly text.
    pub fn name(&self) -> (s: &'static str)
        ensures
            s@ == self.spec_name(),
    {
        match self {
            OpcodeJ::JMP => "JMP",
            OpcodeJ::JAL => "JAL",
        }
    }
}

/// The jumps through a register: the function code of a JR-format
/// instruction.
#[derive(Debug, PartialEq, Eq, Structural, Clone, Copy)]
pub enum FunctJR {
    JR,
    JALR,
}

impl FunctJR {
    /// The five-bit function code.
    pub open spec fn spec_id(&self) -> u16 {
        match self {
            FunctJR::JR => 0b01010,
            FunctJR::JALR => 0b11000,
        }
    }

    /// The keyword that names the operation.
    pub open spec fn spec_name(&self) -> Seq<char> {
        match self {
            FunctJR::JR => "JR"@,
            FunctJR::JALR => "JALR"@,
        }
    }

    /// The code, as it is packed into an instruction word.
    #[verifier::when_used_as_spec(spec_id)]
    pub fn id(&self) -> (r: u16)
        ensures
            r == self.spec_id(),
            r < 32,
    {
        match self {
            FunctJR::JR => 0b01010,
            FunctJR::JALR => 0b11000,
        }
    }

    /// The name, as it is written in assembly text.
    pub fn name(&self) -> (s: &'static str)
        ensures
            s@ == self.spec_name(),
    {
        match self {
            FunctJR::JR => "JR",
            FunctJR::JALR => "JALR",
        }
    }
}

/// An R-format instruction. For a store, `dst` is the register that holds
/// the address and `src` the register whose value is stored.
#[derive(Debug, PartialEq, Eq, Structural, Clone, Copy)]
pub struct InstructionR {
    pub funct: FunctR,
    pub dst: Register,
    pub src: Register,
}

impl InstructionR {
    /// The instruction as assembly text.
    pub open spec fn text(&self) -> Seq<char> {
        match self.funct {
            FunctR::NOP => self.funct.spec_name(),
            FunctR::SL | FunctR::SR => self.funct.spec_name() + " "@ + self.dst.spec_name(),
            FunctR::LD => self.funct.spec_name() + " "@ + self.dst.spec_name() + ", ("@
                + self.src.spec_name() + ")"@,
            FunctR::ST => self.funct.spec_name() + " "@ + self.src.spec_name() + ", ("@
                + self.dst.spec_name() + ")"@,
            _ => self.funct.spec_name() + " "@ + self.dst.spec_name() + ", "@
                + self.src.spec_name(),
        }
    }

    /// The instruction as assembly text.
    pub fn to_text(&self) -> (s: String)
        ensures
            s@ == self.text(),
    {
        let mut s = String::from_str(self.funct.name());
        match self.funct {
            FunctR::NOP => {},
            FunctR::SL | FunctR::SR => {
                s.append(" ");
                s.append(self.dst.name());
            },
            FunctR::LD => {
                s.append(" ");
                s.append(self.dst.name());
                s.append(", (");
                s.append(self.src.name());
                s.append(")");
            },
            FunctR::ST => {
                s.append(" ");
                s.append(self.src.name());
                s.append(", (");
                s.append(self.dst.name());
                s.append(")");
            },
            _ => {
                s.append(" ");
                s.append(self.dst.name());
                s.append(", ");
                s.append(self.src.name());
            },
        }
        s
    }
}

/// An I-format instruction.
#[derive(Debug, PartialEq, Eq, Structural, Clone, Copy)]
pub struct InstructionI {
    pub opcode: OpcodeI,
    pub dst: Register,
    pub immediate: i8,
}

impl InstructionI {
    /// The instruction as assembly text.
    pub open spec fn text(&self) -> Seq<char> {
        self.opcode.spec_name() + " "@ + self.dst.spec_name() + ", #"@ + integer_text(
            self.immediate as int,
        )
    }

    /// The instruction as assembly text.
    pub fn to_text(&self) -> (s: String)
        ensures
            s@ == self.text(),
    {
        let mut s = String::from_str(self.opcode.name());
        s.append(" ");
        s.append(self.dst.name());
        s.append(", #");
        push_integer(&mut s, self.immediate);
        s
    }
}

/// A B-format instruction: a branch to `label`, taken on a condition on `src`.
#[derive(Debug, PartialEq, Eq)]
pub struct InstructionB {
    pub opcode: OpcodeB,
    pub src: Register,
    pub label: String,
}

/// What an [`InstructionB`] stands for in contracts.
pub struct InstructionBView {
    pub opcode: OpcodeB,
    pub src: Register,
    pub label: Seq<char>,
}

impl InstructionBView {
    /// The instruction as assembly text.
    pub open spec fn text(&self) -> Seq<char> {
        self.opcode.spec_name() + " "@ + self.src.spec_name() + ", "@ + self.label
    }
}

impl View for InstructionB {
    type V = InstructionBView;

    open spec fn view(&self) -> InstructionBView {
        InstructionBView { opcode: self.opcode, src: self.src, label: self.label@ }
    }
}

impl Clone for InstructionB {
    fn clone(&self) -> (r: Self)
        ensures
            r@ == self@,
    {
        InstructionB { opcode: self.opcode, src: self.src, label: self.label.clone() }
    }
}

impl InstructionB {
    /// The instruction as assembly text.
    pub fn to_text(&self) -> (s: String)
        ensures
            s@ == self@.text(),
    {
        let mut s = String::from_str(self.opcode.name());
        s.append(" ");
        s.append(self.src.name());
        s.append(", ");
        s.append(self.label.as_str());
        s
    }
}

/// A J-format instruction: a jump to `label`.
#[derive(Debug, PartialEq, Eq)]
pub struct InstructionJ {
    pub opcode: OpcodeJ,
    pub label: String,
}

/// What an [`InstructionJ`] stands for in contracts.
pub struct InstructionJView {
    pub opcode: OpcodeJ,
    pub label: Seq<char>,
}

impl InstructionJView {
    /// The instruction as assembly text.
    pub open spec fn text(&self) -> Seq<char> {
        self.opcode.spec_name() + " "@ + self.label
    }
}

impl View for InstructionJ {
    type V = InstructionJView;

    open spec fn view(&self) -> InstructionJView {
        InstructionJView { opcode: self.opcode, label: self.label@ }
    }
}

impl Clone for InstructionJ {
    fn clone(&self) -> (r: Self)
        ensures
            r@ == self@,
    {
        InstructionJ { opcode: self.opcode, label: self.label.clone() }
    }
}

impl InstructionJ {
    /// The instruction as assembly text.
    pub fn to_text(&self) -> (s: String)
        ensures
            s@ == self@.text(),
    {
        let mut s = String::from_str(self.opcode.name());
        s.append(" ");
        s.append(self.label.as_str());
        s
    }
}

/// A JR-format instruction: a jump to the address that `dst` holds.
#[derive(Debug, PartialEq, Eq, Structural, Clone, Copy)]
pub struct InstructionJR {
    pub funct: FunctJR,
    pub dst: Register,
}

impl InstructionJR {
    /// The instruction as assembly text.
    pub open spec fn text(&self) -> Seq<char> {
        self.funct.spec_name() + " "@ + self.dst.spec_name()
    }

    /// The instruction as assembly text.
    pub fn to_text(&self) -> (s: String)
        ensures
            s@ == self.text(),
    {
        let mut s = String::from_str(self.funct.name());
        s.append(" ");
        s.append(self.dst.name());
        s
    }
}

/// One instruction, in one of the five formats.
#[derive(Debug, PartialEq, Eq)]
pub enum Mnemonic {
    R(InstructionR),
    I(InstructionI),
    B(InstructionB),
    J(InstructionJ),
    JR(InstructionJR),
}

/// What a [`Mnemonic`] stands for in contracts.
pub enum MnemonicView {
    R(InstructionR),
    I(InstructionI),
    B(InstructionBView),
    J(InstructionJView),
    JR(InstructionJR),
}

impl MnemonicView {
    /// The instruction as assembly text.
    pub open spec fn text(&self) -> Seq<char> {
        match self {
            MnemonicView::R(i) => i.text(),
            MnemonicView::I(i) => i.text(),
            MnemonicView::B(i) => i.text(),
            MnemonicView::J(i) => i.text(),
            MnemonicView::JR(i) => i.text(),
        }
    }
}

impl View for Mnemonic {
    type V = MnemonicView;

    open spec fn view(&self) -> MnemonicView {
        match self {
            Mnemonic::R(i) => MnemonicView::R(*i),
            Mnemonic::I(i) => MnemonicView::I(*i),
            Mnemonic::B(i) => MnemonicView::B(i@),
            Mnemonic::J(i) => MnemonicView::J(i@),
            Mnemonic::JR(i) => MnemonicView::JR(*i),
        }
    }
}

impl Clone for Mnemonic {
    fn clone(&self) -> (r: Self)
        ensures
            r@ == self@,
    {
        match self {
            Mnemonic::R(i) => Mnemonic::R(*i),
            Mnemonic::I(i) => Mnemonic::I(*i),
            Mnemonic::B(i) => Mnemonic::B(i.clone()),
            Mnemonic::J(i) => Mnemonic::J(i.clone()),
            Mnemonic::JR(i) => Mnemonic::JR(*i),
        }
    }
}

impl Mnemonic {
    /// The R-format instruction of these parts.
    pub fn instr_r(funct: FunctR, dst: Register, src: Register) -> (m: Self)
        ensures
            m == Mnemonic::R(InstructionR { funct, dst, src }),
    {
        Mnemonic::R(InstructionR { funct, dst, src })
    }

    /// The I-format instruction of these parts.
    pub fn instr_i(opcode: OpcodeI, dst: Register, immediate: i8) -> (m: Self)
        ensures
            m == Mnemonic::I(InstructionI { opcode, dst, immediate }),
    {
        Mnemonic::I(InstructionI { opcode, dst, immediate })
    }

    /// The B-format instruction of these parts.
    pub fn instr_b(opcode: OpcodeB, src: Register, label: String) -> (m: Self)
        ensures
            m == Mnemonic::B(InstructionB { opcode, src, label }),
    {
        Mnemonic::B(InstructionB { opcode, src, label })
    }

    /// The J-format instruction of these parts.
    pub fn instr_j(opcode: OpcodeJ, label: String) -> (m: Self)
        ensures
            m == Mnemonic::J(InstructionJ { opcode, label }),
    {
        Mnemonic::J(InstructionJ { opcode, label })
    }

    /// The JR-format instruction of these parts.
    pub fn instr_jr(funct: FunctJR, dst: Register) -> (m: Self)
        ensures
            m == Mnemonic::JR(InstructionJR { funct, dst }),
    {
        Mnemonic::JR(InstructionJR { funct, dst })
    }

    /// The instruction as assembly text.
    pub fn to_text(&self) -> (s: String)
        ensures
            s@ == self@.text(),
    {
        match self {
            Mnemonic::R(i) => i.to_text(),
            Mnemonic::I(i) => i.to_text(),
            Mnemonic::B(i) => i.to_text(),
            Mnemonic::J(i) => i.to_text(),
            Mnemonic::JR(i) => i.to_text(),
        }
    }
}

/// One item of a program: the declaration of a label, or an instruction.
#[derive(Debug, PartialEq, Eq)]
pub enum Item {
    Label(String),
    Mnemonic(Mnemonic),
}

/// What an [`Item`] stands for in contracts.
pub enum ItemView {
    Label(Seq<char>),
    Mnemonic(MnemonicView),
}

impl ItemView {
    /// The item as assembly text: a label is written behind a colon.
    pub open spec fn text(&self) -> Seq<char> {
        match self {
            ItemView::Label(l) => ":"@ + *l,
            ItemView::Mnemonic(m) => m.text(),
        }
    }
}

impl View for Item {
    type V = ItemView;

    open spec fn view(&self) -> ItemView {
        match self {
            Item::Label(l) => ItemView::Label(l@),
            Item::Mnemonic(m) => ItemView::Mnemonic(m@),
        }
    }
}

impl Clone for Item {
    fn clone(&self) -> (r: Self)
        ensures
            r@ == self@,
    {
        match self {
            Item::Label(l) => Item::Label(l.clone()),
            Item::Mnemonic(m) => Item::Mnemonic(m.clone()),
        }
    }
}

impl Item {
    /// The declaration of `label`.
    pub fn label(label: String) -> (item: Self)
        ensures
            item == Item::Label(label),
    {
        Item::Label(label)
    }

    /// The item that is the R-format instruction of these parts.
    pub fn instr_r(funct: FunctR, dst: Register, src: Register) -> (item: Self)
        ensures
            item == Item::Mnemonic(Mnemonic::R(InstructionR { funct, dst, src })),
    {
        Item::Mnemonic(Mnemonic::instr_r(funct, dst, src))
    }

    /// The item that is the I-format instruction of these parts.
    pub fn instr_i(opcode: OpcodeI, dst: Register, immediate: i8) -> (item: Self)
        ensures
            item == Item::Mnemonic(Mnemonic::I(InstructionI { opcode, dst, immediate })),
    {
        Item::Mnemonic(Mnemonic::instr_i(opcode, dst, immediate))
    }

    /// The item that is the B-format instruction of these parts.
    pub fn instr_b(opcode: OpcodeB, src: Register, label: String) -> (item: Self)
        ensures
            item == Item::Mnemonic(Mnemonic::B(InstructionB { opcode, src, label })),
    {
        Item::Mnemonic(Mnemonic::instr_b(opcode, src, label))
    }

    /// The item that is the J-format instruction of these parts.
    pub fn instr_j(opcode: OpcodeJ, label: String) -> (item: Self)
        ensures
            item == Item::Mnemonic(Mnemonic::J(InstructionJ { opcode, label })),
    {
        Item::Mnemonic(Mnemonic::instr_j(opcode, label))
    }

    /// The item that is the JR-format instruction of these parts.
    pub fn instr_jr(funct: FunctJR, dst: Register) -> (item: Self)
        ensures
            item == Item::Mnemonic(Mnemonic::JR(InstructionJR { funct, dst })),
    {
        Item::Mnemonic(Mnemonic::instr_jr(funct, dst))
    }

    /// The item as assembly text.
    pub fn to_text(&self) -> (s: String)
        ensures
            s@ == self@.text(),
    {
        match self {
            Item::Label(l) => {
                let mut s = String::from_str(":");
                s.append(l.as_str());
                s
            },
            Item::Mnemonic(m) => m.to_text(),
        }
    }
}

/// The views of a sequence of items.
pub open spec fn item_views(items: Seq<Item>) -> Seq<ItemView> {
    items.map_values(|item: Item| item@)
}

/// The views of a sequence of instructions.
pub open spec fn mnemonic_views(mnemonics: Seq<Mnemonic>) -> Seq<MnemonicView> {
    mnemonics.map_values(|m: Mnemonic| m@)
}

} // verus!
