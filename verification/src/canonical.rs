//! The text that the renderer writes for an item is assembly text for the
//! same item: reading it gives the item back.

use vstd::prelude::*;
use crate::ast::Register;
use crate::error::AsmErrorView;
use crate::lexer::{
    joined, lemma_layout, lemma_tokens_around_mark, lemma_tokens_around_space,
    lemma_tokens_of_digits, lemma_tokens_of_word, spec_keyword, tokens_of, CharClass,
};
use crate::lit::{immediate_of, lemma_natural_text_reads_back};
use crate::mnemonic::{
    FunctJR, FunctR, InstructionBView, InstructionI, InstructionJR, InstructionJView,
    InstructionR, ItemView, MnemonicView, OpcodeB, OpcodeI, OpcodeJ,
};
use crate::parser::{item_at, parsed_item, r_operands_at, register_of};
use crate::text::{integer_text, natural_text};
use crate::token::TokenView;

verus! {

/// The token that names a register.
spec fn register_token(v: Register) -> TokenView {
    match v {
        Register::R0 => TokenView::R0,
        Register::R1 => TokenView::R1,
        Register::R2 => TokenView::R2,
        Register::R3 => TokenView::R3,
        Register::R4 => TokenView::R4,
        Register::R5 => TokenView::R5,
        Register::R6 => TokenView::R6,
        Register::R7 => TokenView::R7,
    }
}

/// The token that names an R-format operation.
spec fn funct_r_token(v: FunctR) -> TokenView {
    match v {
        FunctR::NOP => TokenView::NOP,
        FunctR::MV => TokenView::MV,
        FunctR::AND => TokenView::AND,
        FunctR::OR => TokenView::OR,
        FunctR::SL => TokenView::SL,
        FunctR::SR => TokenView::SR,
        FunctR::ADD => TokenView::ADD,
        FunctR::SUB => TokenView::SUB,
        FunctR::ST => TokenView::ST,
        FunctR::LD => TokenView::LD,
    }
}

/// The token that names an I-format operation.
spec fn opcode_i_token(v: OpcodeI) -> TokenView {
    match v {
        OpcodeI::LDI => TokenView::LDI,
        OpcodeI::LDIU => TokenView::LDIU,
        OpcodeI::ADDI => TokenView::ADDI,
        OpcodeI::ADDIU => TokenView::ADDIU,
        OpcodeI::LDHI => TokenView::LDHI,
    }
}

/// The token that names a B-format operation.
spec fn opcode_b_token(v: OpcodeB) -> TokenView {
    match v {
        OpcodeB::BEZ => TokenView::BEZ,
        OpcodeB::BNZ => TokenView::BNZ,
        OpcodeB::BPL => TokenView::BPL,
        OpcodeB::BMI => TokenView::BMI,
    }
}

/// The token that names a J-format operation.
spec fn opcode_j_token(v: OpcodeJ) -> TokenView {
    match v {
        OpcodeJ::JMP => TokenView::JMP,
        OpcodeJ::JAL => TokenView::JAL,
    }
}

/// The token that names a JR-format operation.
spec fn funct_jr_token(v: FunctJR) -> TokenView {
    match v {
        FunctJR::JR => TokenView::JR,
        FunctJR::JALR => TokenView::JALR,
    }
}

/// The keyword table holds the name of each operation and of each register.
proof fn lemma_keyword_table()
    ensures
        spec_keyword("NOP"@) == Some(TokenView::NOP),
        spec_keyword("MV"@) == Some(TokenView::MV),
        spec_keyword("AND"@) == Some(TokenView::AND),
        spec_keyword("OR"@) == Some(TokenView::OR),
        spec_keyword("SL"@) == Some(TokenView::SL),
        spec_keyword("SR"@) == Some(TokenView::SR),
        spec_keyword("ADD"@) == Some(TokenView::ADD),
        spec_keyword("SUB"@) == Some(TokenView::SUB),
        spec_keyword("ST"@) == Some(TokenView::ST),
        spec_keyword("LD"@) == Some(TokenView::LD),
        spec_keyword("LDI"@) == Some(TokenView::LDI),
        spec_keyword("LDIU"@) == Some(TokenView::LDIU),
        spec_keyword("ADDI"@) == Some(TokenView::ADDI),
        spec_keyword("ADDIU"@) == Some(TokenView::ADDIU),
        spec_keyword("LDHI"@) == Some(TokenView::LDHI),
        spec_keyword("BEZ"@) == Some(TokenView::BEZ),
        spec_keyword("BNZ"@) == Some(TokenView::BNZ),
        spec_keyword("BPL"@) == Some(TokenView::BPL),
        spec_keyword("BMI"@) == Some(TokenView::BMI),
        spec_keyword("JMP"@) == Some(TokenView::JMP),
        spec_keyword("JAL"@) == Some(TokenView::JAL),
        spec_keyword("JR"@) == Some(TokenView::JR),
        spec_keyword("JALR"@) == Some(TokenView::JALR),
        spec_keyword("r0"@) == Some(TokenView::R0),
        spec_keyword("r1"@) == Some(TokenView::R1),
        spec_keyword("r2"@) == Some(TokenView::R2),
        spec_keyword("r3"@) == Some(TokenView::R3),
        spec_keyword("r4"@) == Some(TokenView::R4),
        spec_keyword("r5"@) == Some(TokenView::R5),
        spec_keyword("r6"@) == Some(TokenView::R6),
        spec_keyword("r7"@) == Some(TokenView::R7),
{
    reveal_strlit("NOP");
    assert("NOP"@ =~= seq!['N', 'O', 'P']);
    reveal_strlit("MV");
    assert("MV"@ =~= seq!['M', 'V']);
    reveal_strlit("AND");
    assert("AND"@ =~= seq!['A', 'N', 'D']);
    reveal_strlit("OR");
    assert("OR"@ =~= seq!['O', 'R']);
    reveal_strlit("SL");
    assert("SL"@ =~= seq!['S', 'L']);
    reveal_strlit("SR");
    assert("SR"@ =~= seq!['S', 'R']);
    reveal_strlit("ADD");
    assert("ADD"@ =~= seq!['A', 'D', 'D']);
    reveal_strlit("SUB");
    assert("SUB"@ =~= seq!['S', 'U', 'B']);
    reveal_strlit("ST");
    assert("ST"@ =~= seq!['S', 'T']);
    reveal_strlit("LD");
    assert("LD"@ =~= seq!['L', 'D']);
    reveal_strlit("LDI");
    assert("LDI"@ =~= seq!['L', 'D', 'I']);
    reveal_strlit("LDIU");
    assert("LDIU"@ =~= seq!['L', 'D', 'I', 'U']);
    reveal_strlit("ADDI");
    assert("ADDI"@ =~= seq!['A', 'D', 'D', 'I']);
    reveal_strlit("ADDIU");
    assert("ADDIU"@ =~= seq!['A', 'D', 'D', 'I', 'U']);
    reveal_strlit("LDHI");
    assert("LDHI"@ =~= seq!['L', 'D', 'H', 'I']);
    reveal_strlit("BEZ");
    assert("BEZ"@ =~= seq!['B', 'E', 'Z']);
    reveal_strlit("BNZ");
    assert("BNZ"@ =~= seq!['B', 'N', 'Z']);
    reveal_strlit("BPL");
    assert("BPL"@ =~= seq!['B', 'P', 'L']);
    reveal_strlit("BMI");
    assert("BMI"@ =~= seq!['B', 'M', 'I']);
    reveal_strlit("JMP");
    assert("JMP"@ =~= seq!['J', 'M', 'P']);
    reveal_strlit("JAL");
    assert("JAL"@ =~= seq!['J', 'A', 'L']);
    reveal_strlit("JR");
    assert("JR"@ =~= seq!['J', 'R']);
    reveal_strlit("JALR");
    assert("JALR"@ =~= seq!['J', 'A', 'L', 'R']);
    reveal_strlit("r0");
    assert("r0"@ =~= seq!['r', '0']);
    reveal_strlit("r1");
    assert("r1"@ =~= seq!['r', '1']);
    reveal_strlit("r2");
    assert("r2"@ =~= seq!['r', '2']);
    reveal_strlit("r3");
    assert("r3"@ =~= seq!['r', '3']);
    reveal_strlit("r4");
    assert("r4"@ =~= seq!['r', '4']);
    reveal_strlit("r5");
    assert("r5"@ =~= seq!['r', '5']);
    reveal_strlit("r6");
    assert("r6"@ =~= seq!['r', '6']);
    reveal_strlit("r7");
    assert("r7"@ =~= seq!['r', '7']);
}

/// The name of a register is one token: its own.
proof fn lemma_register_name(v: Register)
    ensures
        tokens_of(v.spec_name()) == Ok::<Seq<TokenView>, AsmErrorView>(seq![register_token(v)]),
{
    lemma_keyword_table();
    match v {
        Register::R0 => {
            reveal_strlit("r0");
            lemma_tokens_of_word("r0"@);
        },
        Register::R1 => {
            reveal_strlit("r1");
            lemma_tokens_of_word("r1"@);
        },
        Register::R2 => {
            reveal_strlit("r2");
            lemma_tokens_of_word("r2"@);
        },
        Register::R3 => {
            reveal_strlit("r3");
            lemma_tokens_of_word("r3"@);
        },
        Register::R4 => {
            reveal_strlit("r4");
            lemma_tokens_of_word("r4"@);
        },
        Register::R5 => {
            reveal_strlit("r5");
            lemma_tokens_of_word("r5"@);
        },
        Register::R6 => {
            reveal_strlit("r6");
            lemma_tokens_of_word("r6"@);
        },
        Register::R7 => {
            reveal_strlit("r7");
            lemma_tokens_of_word("r7"@);
        },
    }
}

/// The name of an R-format operation is one token: its own.
proof fn lemma_funct_r_name(v: FunctR)
    ensures
        tokens_of(v.spec_name()) == Ok::<Seq<TokenView>, AsmErrorView>(seq![funct_r_token(v)]),
{
    lemma_keyword_table();
    match v {
        FunctR::NOP => {
            reveal_strlit("NOP");
            lemma_tokens_of_word("NOP"@);
        },
        FunctR::MV => {
            reveal_strlit("MV");
            lemma_tokens_of_word("MV"@);
        },
        FunctR::AND => {
            reveal_strlit("AND");
            lemma_tokens_of_word("AND"@);
        },
        FunctR::OR => {
            reveal_strlit("OR");
            lemma_tokens_of_word("OR"@);
        },
        FunctR::SL => {
            reveal_strlit("SL");
            lemma_tokens_of_word("SL"@);
        },
        FunctR::SR => {
            reveal_strlit("SR");
            lemma_tokens_of_word("SR"@);
        },
        FunctR::ADD => {
            reveal_strlit("ADD");
            lemma_tokens_of_word("ADD"@);
        },
        FunctR::SUB => {
            reveal_strlit("SUB");
            lemma_tokens_of_word("SUB"@);
        },
        FunctR::ST => {
            reveal_strlit("ST");
            lemma_tokens_of_word("ST"@);
        },
        FunctR::LD => {
            reveal_strlit("LD");
            lemma_tokens_of_word("LD"@);
        },
    }
}

/// The name of an I-format operation is one token: its own.
proof fn lemma_opcode_i_name(v: OpcodeI)
    ensures
        tokens_of(v.spec_name()) == Ok::<Seq<TokenView>, AsmErrorView>(seq![opcode_i_token(v)]),
{
    lemma_keyword_table();
    match v {
        OpcodeI::LDI => {
            reveal_strlit("LDI");
            lemma_tokens_of_word("LDI"@);
        },
        OpcodeI::LDIU => {
            reveal_strlit("LDIU");
            lemma_tokens_of_word("LDIU"@);
        },
        OpcodeI::ADDI => {
            reveal_strlit("ADDI");
            lemma_tokens_of_word("ADDI"@);
        },
        OpcodeI::ADDIU => {
            reveal_strlit("ADDIU");
            lemma_tokens_of_word("ADDIU"@);
        },
        OpcodeI::LDHI => {
            reveal_strlit("LDHI");
            lemma_tokens_of_word("LDHI"@);
        },
    }
}

/// The name of a B-format operation is one token: its own.
proof fn lemma_opcode_b_name(v: OpcodeB)
    ensures
        tokens_of(v.spec_name()) == Ok::<Seq<TokenView>, AsmErrorView>(seq![opcode_b_token(v)]),
{
    lemma_keyword_table();
    match v {
        OpcodeB::BEZ => {
            reveal_strlit("BEZ");
            lemma_tokens_of_word("BEZ"@);
        },
        OpcodeB::BNZ => {
            reveal_strlit("BNZ");
            lemma_tokens_of_word("BNZ"@);
        },
        OpcodeB::BPL => {
            reveal_strlit("BPL");
            lemma_tokens_of_word("BPL"@);
        },
        OpcodeB::BMI => {
            reveal_strlit("BMI");
            lemma_tokens_of_word("BMI"@);
        },
    }
}

/// The name of a J-format operation is one token: its own.
proof fn lemma_opcode_j_name(v: OpcodeJ)
    ensures
        tokens_of(v.spec_name()) == Ok::<Seq<TokenView>, AsmErrorView>(seq![opcode_j_token(v)]),
{
    lemma_keyword_table();
    match v {
        OpcodeJ::JMP => {
            reveal_strlit("JMP");
            lemma_tokens_of_word("JMP"@);
        },
        OpcodeJ::JAL => {
            reveal_strlit("JAL");
            lemma_tokens_of_word("JAL"@);
        },
    }
}

/// The name of a JR-format operation is one token: its own.
proof fn lemma_funct_jr_name(v: FunctJR)
    ensures
        tokens_of(v.spec_name()) == Ok::<Seq<TokenView>, AsmErrorView>(seq![funct_jr_token(v)]),
{
    lemma_keyword_table();
    match v {
        FunctJR::JR => {
            reveal_strlit("JR");
            lemma_tokens_of_word("JR"@);
        },
        FunctJR::JALR => {
            reveal_strlit("JALR");
            lemma_tokens_of_word("JALR"@);
        },
    }
}

/// A blank parts the tokens before it from the tokens behind it.
proof fn lemma_blank(a: Seq<char>, b: Seq<char>)
    ensures
        tokens_of(a + " "@ + b) == joined(tokens_of(a), tokens_of(b)),
{
    reveal_strlit(" ");
    assert(" "@ =~= seq![' ']);
    lemma_tokens_around_space(a, ' ', b, 0);
}

/// A comma and a blank stand for one token between those of the texts
/// around them.
proof fn lemma_comma(a: Seq<char>, b: Seq<char>)
    ensures
        tokens_of(a + ", "@ + b) == joined(
            tokens_of(a),
            joined(Ok(seq![TokenView::Comma]), tokens_of(b)),
        ),
{
    reveal_strlit(", ");
    assert(", "@ =~= seq![',', ' ']);
    lemma_tokens_around_mark(a, ',', seq![' '] + b, 0);
    lemma_layout(Seq::empty(), ' ', ' ', b);
    assert(a + ", "@ + b =~= a + seq![','] + (seq![' '] + b));
}

/// A comma, a blank and then an opening parenthesis or a sharp stand for two
/// tokens between those of the texts around them.
proof fn lemma_comma_and_mark(a: Seq<char>, mark: char, b: Seq<char>)
    requires
        mark == '(' || mark == '#',
    ensures
        tokens_of(a + seq![',', ' ', mark] + b) == joined(
            tokens_of(a),
            joined(
                Ok(
                    seq![
                        TokenView::Comma,
                        if mark == '(' {
                            TokenView::OpenParen
                        } else {
                            TokenView::Sharp
                        },
                    ],
                ),
                tokens_of(b),
            ),
        ),
{
    let none = Seq::<char>::empty();
    let marked = seq![mark] + b;
    lemma_tokens_around_mark(a, ',', seq![' '] + marked, 0);
    lemma_layout(none, ' ', ' ', marked);
    lemma_tokens_around_mark(none, mark, b, 0);
    assert(none + seq![mark] + b =~= marked);
    assert(a + seq![',', ' ', mark] + b =~= a + seq![','] + (seq![' '] + marked));
    if tokens_of(b) is Ok {
        let tb = tokens_of(b)->Ok_0;
        let m = if mark == '(' {
            TokenView::OpenParen
        } else {
            TokenView::Sharp
        };
        assert(Seq::<TokenView>::empty() + (seq![m] + tb) =~= seq![m] + tb);
        assert(seq![TokenView::Comma] + (seq![m] + tb) =~= seq![TokenView::Comma, m] + tb);
    }
}

/// A closing parenthesis at the end of a text is its last token.
proof fn lemma_close(a: Seq<char>)
    ensures
        tokens_of(a + ")"@) == joined(tokens_of(a), Ok(seq![TokenView::CloseParen])),
{
    reveal_strlit(")");
    assert(")"@ =~= seq![')']);
    lemma_tokens_around_mark(a, ')', Seq::empty(), 0);
    assert(a + seq![')'] + Seq::<char>::empty() =~= a + ")"@);
    assert(seq![TokenView::CloseParen] + Seq::<TokenView>::empty() =~= seq![
        TokenView::CloseParen,
    ]);
}

/// A colon at the start of a text is its first token.
proof fn lemma_colon(b: Seq<char>)
    ensures
        tokens_of(":"@ + b) == joined(Ok(seq![TokenView::Colon]), tokens_of(b)),
{
    reveal_strlit(":");
    assert(":"@ =~= seq![':']);
    lemma_tokens_around_mark(Seq::empty(), ':', b, 0);
    assert(Seq::<char>::empty() + seq![':'] + b =~= ":"@ + b);
    if tokens_of(b) is Ok {
        let rest = seq![TokenView::Colon] + tokens_of(b)->Ok_0;
        assert(Seq::<TokenView>::empty() + rest =~= rest);
    }
}

/// The tokens of a number in decimal: its digits, behind a minus sign where
/// the number is negative.
proof fn lemma_integer_tokens(v: i8)
    ensures
        tokens_of(integer_text(v as int)) == Ok::<Seq<TokenView>, AsmErrorView>(
            if v < 0 {
                seq![TokenView::Minus, TokenView::Num(natural_text((-v) as nat))]
            } else {
                seq![TokenView::Num(natural_text(v as nat))]
            },
        ),
{
    if v < 0 {
        let digits = natural_text((-v) as nat);
        lemma_natural_text_reads_back((-v) as nat);
        lemma_tokens_of_digits(digits);
        lemma_tokens_around_mark(Seq::empty(), '-', digits, 0);
        assert(Seq::<char>::empty() + seq!['-'] + digits =~= integer_text(v as int));
        let rest = seq![TokenView::Minus] + seq![TokenView::Num(digits)];
        assert(Seq::<TokenView>::empty() + rest =~= seq![
            TokenView::Minus,
            TokenView::Num(digits),
        ]);
    } else {
        lemma_natural_text_reads_back(v as nat);
        lemma_tokens_of_digits(natural_text(v as nat));
    }
}

/// Whether `s` can be the name of a label: word characters, the first of
/// them no digit, that spell no keyword.
pub open spec fn is_name(s: Seq<char>) -> bool {
    &&& s.len() > 0
    &&& forall|i: int| 0 <= i < s.len() ==> CharClass::Word.holds(#[trigger] s[i])
    &&& !CharClass::Digit.holds(s[0])
    &&& spec_keyword(s) is None
}

/// Whether `item` is one that assembly text can write: its label is a
/// name, and the registers that its text leaves out are `r0`.
pub open spec fn is_writable(item: ItemView) -> bool {
    match item {
        ItemView::Label(name) => is_name(name),
        ItemView::Mnemonic(MnemonicView::R(i)) => match i.funct {
            FunctR::NOP => i.dst == Register::R0 && i.src == Register::R0,
            FunctR::SL | FunctR::SR => i.src == Register::R0,
            _ => true,
        },
        ItemView::Mnemonic(MnemonicView::I(_)) => true,
        ItemView::Mnemonic(MnemonicView::B(i)) => is_name(i.label),
        ItemView::Mnemonic(MnemonicView::J(i)) => is_name(i.label),
        ItemView::Mnemonic(MnemonicView::JR(_)) => true,
    }
}

/// The parser knows the token of a register for what it is.
proof fn lemma_register_known(register: Register)
    ensures
        register_of(register_token(register)) == Some(register),
{
}

/// The text of a load or a store reads back as that instruction: the
/// operation, a register, a comma, and a register in parentheses.
proof fn lemma_memory_text_reads_back(i: InstructionR)
    requires
        i.funct == FunctR::LD || i.funct == FunctR::ST,
    ensures
        parsed_item(i.text()) == Ok::<ItemView, AsmErrorView>(
            ItemView::Mnemonic(MnemonicView::R(i)),
        ),
{
    let first = if i.funct == FunctR::LD {
        i.dst
    } else {
        i.src
    };
    let second = if i.funct == FunctR::LD {
        i.src
    } else {
        i.dst
    };
    let name = i.funct.spec_name();
    let f = funct_r_token(i.funct);
    let a = register_token(first);
    let b = register_token(second);
    lemma_funct_r_name(i.funct);
    lemma_register_name(first);
    lemma_register_name(second);
    lemma_register_known(first);
    lemma_register_known(second);
    lemma_blank(name, first.spec_name());
    reveal_strlit(", (");
    assert(", ("@ =~= seq![',', ' ', '(']);
    lemma_comma_and_mark(name + " "@ + first.spec_name(), '(', second.spec_name());
    lemma_close(name + " "@ + first.spec_name() + ", ("@ + second.spec_name());
    let tokens = seq![f, a, TokenView::Comma, TokenView::OpenParen, b, TokenView::CloseParen];
    assert((seq![f] + seq![a]) + (seq![TokenView::Comma, TokenView::OpenParen] + seq![b])
        + seq![TokenView::CloseParen] =~= tokens);
    assert(tokens_of(i.text()) == Ok::<Seq<TokenView>, AsmErrorView>(tokens));
    assert(item_at(tokens, 0) == r_operands_at(tokens, 1, i.funct));
}

/// The text of an operation on two registers reads back as that
/// instruction: the operation, a register, a comma and a register.
proof fn lemma_two_register_text_reads_back(i: InstructionR)
    requires
        i.funct == FunctR::MV || i.funct == FunctR::AND || i.funct == FunctR::OR || i.funct
            == FunctR::ADD || i.funct == FunctR::SUB,
    ensures
        parsed_item(i.text()) == Ok::<ItemView, AsmErrorView>(
            ItemView::Mnemonic(MnemonicView::R(i)),
        ),
{
    let name = i.funct.spec_name();
    let f = funct_r_token(i.funct);
    let d = register_token(i.dst);
    let s = register_token(i.src);
    lemma_funct_r_name(i.funct);
    lemma_register_name(i.dst);
    lemma_register_name(i.src);
    lemma_register_known(i.dst);
    lemma_register_known(i.src);
    lemma_blank(name, i.dst.spec_name());
    lemma_comma(name + " "@ + i.dst.spec_name(), i.src.spec_name());
    let tokens = seq![f, d, TokenView::Comma, s];
    assert((seq![f] + seq![d]) + (seq![TokenView::Comma] + seq![s]) =~= tokens);
    assert(tokens_of(i.text()) == Ok::<Seq<TokenView>, AsmErrorView>(tokens));
    assert(item_at(tokens, 0) == r_operands_at(tokens, 1, i.funct));
}

/// The text of a shift reads back as that instruction: the operation and
/// its register.
proof fn lemma_shift_text_reads_back(i: InstructionR)
    requires
        i.funct == FunctR::SL || i.funct == FunctR::SR,
        i.src == Register::R0,
    ensures
        parsed_item(i.text()) == Ok::<ItemView, AsmErrorView>(
            ItemView::Mnemonic(MnemonicView::R(i)),
        ),
{
    let f = funct_r_token(i.funct);
    let d = register_token(i.dst);
    lemma_funct_r_name(i.funct);
    lemma_register_name(i.dst);
    lemma_register_known(i.dst);
    lemma_blank(i.funct.spec_name(), i.dst.spec_name());
    let tokens = seq![f, d];
    assert(seq![f] + seq![d] =~= tokens);
    assert(tokens_of(i.text()) == Ok::<Seq<TokenView>, AsmErrorView>(tokens));
    assert(item_at(tokens, 0) == r_operands_at(tokens, 1, i.funct));
}

/// The text of an R-format instruction reads back as that instruction.
proof fn lemma_r_text_reads_back(i: InstructionR)
    requires
        is_writable(ItemView::Mnemonic(MnemonicView::R(i))),
    ensures
        parsed_item(i.text()) == Ok::<ItemView, AsmErrorView>(
            ItemView::Mnemonic(MnemonicView::R(i)),
        ),
{
    match i.funct {
        FunctR::NOP => {
            lemma_funct_r_name(i.funct);
        },
        FunctR::SL | FunctR::SR => {
            lemma_shift_text_reads_back(i);
        },
        FunctR::LD | FunctR::ST => {
            lemma_memory_text_reads_back(i);
        },
        _ => {
            lemma_two_register_text_reads_back(i);
        },
    }
}

/// The text of an I-format instruction reads back as that instruction.
proof fn lemma_i_text_reads_back(i: InstructionI)
    ensures
        parsed_item(i.text()) == Ok::<ItemView, AsmErrorView>(
            ItemView::Mnemonic(MnemonicView::I(i)),
        ),
{
    let name = i.opcode.spec_name();
    let dst = i.dst.spec_name();
    let number = integer_text(i.immediate as int);
    let c = opcode_i_token(i.opcode);
    let d = register_token(i.dst);
    lemma_opcode_i_name(i.opcode);
    lemma_register_name(i.dst);
    lemma_integer_tokens(i.immediate);
    lemma_blank(name, dst);
    reveal_strlit(", #");
    assert(", #"@ =~= seq![',', ' ', '#']);
    lemma_comma_and_mark(name + " "@ + dst, '#', number);
    let marks = seq![TokenView::Comma, TokenView::Sharp];
    if i.immediate < 0 {
        let digits = natural_text((-i.immediate) as nat);
        lemma_natural_text_reads_back((-i.immediate) as nat);
        let tokens = seq![
            c,
            d,
            TokenView::Comma,
            TokenView::Sharp,
            TokenView::Minus,
            TokenView::Num(digits),
        ];
        assert((seq![c] + seq![d]) + (marks + seq![TokenView::Minus, TokenView::Num(digits)])
            =~= tokens);
        assert(tokens_of(i.text()) == Ok::<Seq<TokenView>, AsmErrorView>(tokens));
        assert(immediate_of(true, digits) == Ok::<i8, AsmErrorView>(i.immediate));
    } else {
        let digits = natural_text(i.immediate as nat);
        lemma_natural_text_reads_back(i.immediate as nat);
        let tokens = seq![c, d, TokenView::Comma, TokenView::Sharp, TokenView::Num(digits)];
        assert((seq![c] + seq![d]) + (marks + seq![TokenView::Num(digits)]) =~= tokens);
        assert(tokens_of(i.text()) == Ok::<Seq<TokenView>, AsmErrorView>(tokens));
        assert(immediate_of(false, digits) == Ok::<i8, AsmErrorView>(i.immediate));
    }
}

/// The text of a B-format instruction reads back as that instruction.
proof fn lemma_b_text_reads_back(i: InstructionBView)
    requires
        is_name(i.label),
    ensures
        parsed_item(i.text()) == Ok::<ItemView, AsmErrorView>(
            ItemView::Mnemonic(MnemonicView::B(i)),
        ),
{
    let name = i.opcode.spec_name();
    let src = i.src.spec_name();
    let c = opcode_b_token(i.opcode);
    let r = register_token(i.src);
    lemma_opcode_b_name(i.opcode);
    lemma_register_name(i.src);
    lemma_tokens_of_word(i.label);
    lemma_blank(name, src);
    lemma_comma(name + " "@ + src, i.label);
    let tokens = seq![c, r, TokenView::Comma, TokenView::Ident(i.label)];
    assert((seq![c] + seq![r]) + (seq![TokenView::Comma] + seq![TokenView::Ident(i.label)])
        =~= tokens);
    assert(tokens_of(i.text()) == Ok::<Seq<TokenView>, AsmErrorView>(tokens));
}

/// The text of a J-format instruction reads back as that instruction.
proof fn lemma_j_text_reads_back(i: InstructionJView)
    requires
        is_name(i.label),
    ensures
        parsed_item(i.text()) == Ok::<ItemView, AsmErrorView>(
            ItemView::Mnemonic(MnemonicView::J(i)),
        ),
{
    let name = i.opcode.spec_name();
    let c = opcode_j_token(i.opcode);
    lemma_opcode_j_name(i.opcode);
    lemma_tokens_of_word(i.label);
    lemma_blank(name, i.label);
    let tokens = seq![c, TokenView::Ident(i.label)];
    assert(seq![c] + seq![TokenView::Ident(i.label)] =~= tokens);
    assert(tokens_of(i.text()) == Ok::<Seq<TokenView>, AsmErrorView>(tokens));
}

/// The text of a JR-format instruction reads back as that instruction.
proof fn lemma_jr_text_reads_back(i: InstructionJR)
    ensures
        parsed_item(i.text()) == Ok::<ItemView, AsmErrorView>(
            ItemView::Mnemonic(MnemonicView::JR(i)),
        ),
{
    let name = i.funct.spec_name();
    let dst = i.dst.spec_name();
    let f = funct_jr_token(i.funct);
    let d = register_token(i.dst);
    lemma_funct_jr_name(i.funct);
    lemma_register_name(i.dst);
    lemma_blank(name, dst);
    let tokens = seq![f, d];
    assert(seq![f] + seq![d] =~= tokens);
    assert(tokens_of(i.text()) == Ok::<Seq<TokenView>, AsmErrorView>(tokens));
}

/// The text of an item reads back as that item: what the renderer writes for
/// an instruction or a label is assembly text for the same instruction or
/// label. This holds of every item that assembly text can write.
pub proof fn lemma_text_reads_back(item: ItemView)
    requires
        is_writable(item),
    ensures
        parsed_item(item.text()) == Ok::<ItemView, AsmErrorView>(item),
{
    match item {
        ItemView::Label(name) => {
            lemma_tokens_of_word(name);
            lemma_colon(name);
            let tokens = seq![TokenView::Colon, TokenView::Ident(name)];
            assert(seq![TokenView::Colon] + seq![TokenView::Ident(name)] =~= tokens);
            assert(tokens_of(item.text()) == Ok::<Seq<TokenView>, AsmErrorView>(tokens));
        },
        ItemView::Mnemonic(MnemonicView::R(i)) => lemma_r_text_reads_back(i),
        ItemView::Mnemonic(MnemonicView::I(i)) => lemma_i_text_reads_back(i),
        ItemView::Mnemonic(MnemonicView::B(i)) => lemma_b_text_reads_back(i),
        ItemView::Mnemonic(MnemonicView::J(i)) => lemma_j_text_reads_back(i),
        ItemView::Mnemonic(MnemonicView::JR(i)) => lemma_jr_text_reads_back(i),
    }
}

} // verus!
