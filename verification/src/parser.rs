use vstd::prelude::*;
use crate::ast::Register;
use crate::error::{AsmError, AsmErrorView};
use crate::lexer::{token_views, tokenize, tokens_of};
use crate::lit::{immediate, immediate_of};
use crate::mnemonic::{
    FunctJR, FunctR, InstructionBView, InstructionI, InstructionJR, InstructionJView,
    InstructionR, Item, ItemView, MnemonicView, OpcodeB, OpcodeI, OpcodeJ, item_views,
};
use crate::token::{Token, TokenView};

verus! {

/// The token at place `pos`, if there is one.
pub open spec fn token_at(tokens: Seq<TokenView>, pos: int) -> Option<TokenView> {
    if 0 <= pos < tokens.len() {
        Some(tokens[pos])
    } else {
        None
    }
}

/// The error for the token at place `pos`, which the grammar does not allow
/// there; or for the end of the input, if `pos` lies behind the last token.
pub open spec fn unexpected(tokens: Seq<TokenView>, pos: int) -> AsmErrorView {
    AsmErrorView::Parse(token_at(tokens, pos))
}

/// The register that a token names.
pub open spec fn register_of(t: TokenView) -> Option<Register> {
    match t {
        TokenView::R0 => Some(Register::R0),
        TokenView::R1 => Some(Register::R1),
        TokenView::R2 => Some(Register::R2),
        TokenView::R3 => Some(Register::R3),
        TokenView::R4 => Some(Register::R4),
        TokenView::R5 => Some(Register::R5),
        TokenView::R6 => Some(Register::R6),
        TokenView::R7 => Some(Register::R7),
        _ => None,
    }
}

/// The R-format operation that a token names.
pub open spec fn funct_r_of(t: TokenView) -> Option<FunctR> {
    match t {
        TokenView::NOP => Some(FunctR::NOP),
        TokenView::MV => Some(FunctR::MV),
        TokenView::AND => Some(FunctR::AND),
        TokenView::OR => Some(FunctR::OR),
        TokenView::SL => Some(FunctR::SL),
        TokenView::SR => Some(FunctR::SR),
        TokenView::ADD => Some(FunctR::ADD),
        TokenView::SUB => Some(FunctR::SUB),
        TokenView::ST => Some(FunctR::ST),
        TokenView::LD => Some(FunctR::LD),
        _ => None,
    }
}

/// The I-format operation that a token names.
pub open spec fn opcode_i_of(t: TokenView) -> Option<OpcodeI> {
    match t {
        TokenView::LDI => Some(OpcodeI::LDI),
        TokenView::LDIU => Some(OpcodeI::LDIU),
        TokenView::ADDI => Some(OpcodeI::ADDI),
        TokenView::ADDIU => Some(OpcodeI::ADDIU),
        TokenView::LDHI => Some(OpcodeI::LDHI),
        _ => None,
    }
}

/// The B-format operation that a token names.
pub open spec fn opcode_b_of(t: TokenView) -> Option<OpcodeB> {
    match t {
        TokenView::BEZ => Some(OpcodeB::BEZ),
        TokenView::BNZ => Some(OpcodeB::BNZ),
        TokenView::BPL => Some(OpcodeB::BPL),
        TokenView::BMI => Some(OpcodeB::BMI),
        _ => None,
    }
}

/// The J-format operation that a token names.
pub open spec fn opcode_j_of(t: TokenView) -> Option<OpcodeJ> {
    match t {
        TokenView::JMP => Some(OpcodeJ::JMP),
        TokenView::JAL => Some(OpcodeJ::JAL),
        _ => None,
    }
}

/// The JR-format operation that a token names.
pub open spec fn funct_jr_of(t: TokenView) -> Option<FunctJR> {
    match t {
        TokenView::JR => Some(FunctJR::JR),
        TokenView::JALR => Some(FunctJR::JALR),
        _ => None,
    }
}

/// `register := 'r0' .. 'r7'`, read at place `pos`.
pub open spec fn register_at(tokens: Seq<TokenView>, pos: int) -> Result<Register, AsmErrorView> {
    match token_at(tokens, pos) {
        Some(t) if register_of(t) is Some => Ok(register_of(t)->0),
        _ => Err(unexpected(tokens, pos)),
    }
}

/// A name, read at place `pos`.
pub open spec fn name_at(tokens: Seq<TokenView>, pos: int) -> Result<Seq<char>, AsmErrorView> {
    match token_at(tokens, pos) {
        Some(TokenView::Ident(name)) => Ok(name),
        _ => Err(unexpected(tokens, pos)),
    }
}

/// `'#' ['-'] NUMBER`, read at place `pos`: the immediate, and the place
/// behind the number.
pub open spec fn immediate_at(tokens: Seq<TokenView>, pos: int) -> Result<(i8, int), AsmErrorView> {
    if token_at(tokens, pos) != Some(TokenView::Sharp) {
        Err(unexpected(tokens, pos))
    } else {
        let negative = token_at(tokens, pos + 1) == Some(TokenView::Minus);
        let at = if negative {
            pos + 2
        } else {
            pos + 1
        };
        match token_at(tokens, at) {
            Some(TokenView::Num(digits)) => match immediate_of(negative, digits) {
                Ok(v) => Ok((v, at + 1)),
                Err(e) => Err(e),
            },
            _ => Err(unexpected(tokens, at)),
        }
    }
}

/// The item that an R-format instruction is.
pub open spec fn item_r(funct: FunctR, dst: Register, src: Register) -> ItemView {
    ItemView::Mnemonic(MnemonicView::R(InstructionR { funct, dst, src }))
}

/// The operands of the R-format operation `funct`, read at place `pos`.
/// `NOP` has none. A shift has one register. A load or a store has a
/// register, a comma and a register in parentheses, which holds the address:
/// it is the source of a load and the destination of a store. Every other
/// operation has the destination, a comma and the source.
pub open spec fn r_operands_at(
    tokens: Seq<TokenView>,
    pos: int,
    funct: FunctR,
) -> Result<(ItemView, int), AsmErrorView> {
    match funct {
        FunctR::NOP => Ok((item_r(funct, Register::R0, Register::R0), pos)),
        FunctR::SL | FunctR::SR => match register_at(tokens, pos) {
            Ok(dst) => Ok((item_r(funct, dst, Register::R0), pos + 1)),
            Err(e) => Err(e),
        },
        FunctR::ST | FunctR::LD => match register_at(tokens, pos) {
            Err(e) => Err(e),
            Ok(first) => if token_at(tokens, pos + 1) != Some(TokenView::Comma) {
                Err(unexpected(tokens, pos + 1))
            } else if token_at(tokens, pos + 2) != Some(TokenView::OpenParen) {
                Err(unexpected(tokens, pos + 2))
            } else {
                match register_at(tokens, pos + 3) {
                    Err(e) => Err(e),
                    Ok(second) => if token_at(tokens, pos + 4) != Some(TokenView::CloseParen) {
                        Err(unexpected(tokens, pos + 4))
                    } else if funct == FunctR::ST {
                        Ok((item_r(funct, second, first), pos + 5))
                    } else {
                        Ok((item_r(funct, first, second), pos + 5))
                    },
                }
            },
        },
        _ => match register_at(tokens, pos) {
            Err(e) => Err(e),
            Ok(dst) => if token_at(tokens, pos + 1) != Some(TokenView::Comma) {
                Err(unexpected(tokens, pos + 1))
            } else {
                match register_at(tokens, pos + 2) {
                    Err(e) => Err(e),
                    Ok(src) => Ok((item_r(funct, dst, src), pos + 3)),
                }
            },
        },
    }
}

/// `register ',' '#' ['-'] NUMBER`: the operands of an I-format operation.
pub open spec fn i_operands_at(
    tokens: Seq<TokenView>,
    pos: int,
    opcode: OpcodeI,
) -> Result<(ItemView, int), AsmErrorView> {
    match register_at(tokens, pos) {
        Err(e) => Err(e),
        Ok(dst) => if token_at(tokens, pos + 1) != Some(TokenView::Comma) {
            Err(unexpected(tokens, pos + 1))
        } else {
            match immediate_at(tokens, pos + 2) {
                Err(e) => Err(e),
                Ok((immediate, next)) => Ok(
                    (
                        ItemView::Mnemonic(
                            MnemonicView::I(InstructionI { opcode, dst, immediate }),
                        ),
                        next,
                    ),
                ),
            }
        },
    }
}

/// `register ',' NAME`: the operands of a B-format operation.
pub open spec fn b_operands_at(
    tokens: Seq<TokenView>,
    pos: int,
    opcode: OpcodeB,
) -> Result<(ItemView, int), AsmErrorView> {
    match register_at(tokens, pos) {
        Err(e) => Err(e),
        Ok(src) => if token_at(tokens, pos + 1) != Some(TokenView::Comma) {
            Err(unexpected(tokens, pos + 1))
        } else {
            match name_at(tokens, pos + 2) {
                Err(e) => Err(e),
                Ok(label) => Ok(
                    (
                        ItemView::Mnemonic(
                            MnemonicView::B(InstructionBView { opcode, src, label }),
                        ),
                        pos + 3,
                    ),
                ),
            }
        },
    }
}

/// One item, read at place `pos`, and the place behind it. A colon and a
/// name declare a label; the keyword of an operation begins an instruction,
/// whose operands follow as its format has them.
pub open spec fn item_at(
    tokens: Seq<TokenView>,
    pos: int,
) -> Result<(ItemView, int), AsmErrorView> {
    match token_at(tokens, pos) {
        None => Err(unexpected(tokens, pos)),
        Some(head) => if head == TokenView::Colon {
            match name_at(tokens, pos + 1) {
                Ok(name) => Ok((ItemView::Label(name), pos + 2)),
                Err(e) => Err(e),
            }
        } else if funct_r_of(head) is Some {
            r_operands_at(tokens, pos + 1, funct_r_of(head)->0)
        } else if opcode_i_of(head) is Some {
            i_operands_at(tokens, pos + 1, opcode_i_of(head)->0)
        } else if opcode_b_of(head) is Some {
            b_operands_at(tokens, pos + 1, opcode_b_of(head)->0)
        } else if opcode_j_of(head) is Some {
            match name_at(tokens, pos + 1) {
                Ok(label) => Ok(
                    (
                        ItemView::Mnemonic(
                            MnemonicView::J(
                                InstructionJView { opcode: opcode_j_of(head)->0, label },
                            ),
                        ),
                        pos + 2,
                    ),
                ),
                Err(e) => Err(e),
            }
        } else if funct_jr_of(head) is Some {
            match register_at(tokens, pos + 1) {
                Ok(dst) => Ok(
                    (
                        ItemView::Mnemonic(
                            MnemonicView::JR(InstructionJR { funct: funct_jr_of(head)->0, dst }),
                        ),
                        pos + 2,
                    ),
                ),
                Err(e) => Err(e),
            }
        } else {
            Err(unexpected(tokens, pos))
        },
    }
}

/// An item holds a token at least, and none from behind the input.
pub proof fn lemma_item_at_advances(tokens: Seq<TokenView>, pos: int)
    ensures
        item_at(tokens, pos) matches Ok((_, next)) ==> 0 <= pos < next <= tokens.len(),
{
}

/// `file := item*`: the items from place `pos` to the end of the input, or
/// the first error.
pub open spec fn items_from(tokens: Seq<TokenView>, pos: int) -> Result<Seq<ItemView>, AsmErrorView>
    decreases tokens.len() - pos,
{
    if !(0 <= pos < tokens.len()) {
        Ok(Seq::empty())
    } else {
        match item_at(tokens, pos) {
            Err(e) => Err(e),
            Ok((item, next)) => {
                proof {
                    lemma_item_at_advances(tokens, pos);
                }
                match items_from(tokens, next) {
                    Ok(rest) => Ok(seq![item] + rest),
                    Err(e) => Err(e),
                }
            },
        }
    }
}

/// The items of a program, from its tokens.
pub open spec fn items_of(tokens: Seq<TokenView>) -> Result<Seq<ItemView>, AsmErrorView> {
    items_from(tokens, 0)
}

/// The one item that the tokens are, all of them.
pub open spec fn single_item(tokens: Seq<TokenView>) -> Result<ItemView, AsmErrorView> {
    match item_at(tokens, 0) {
        Err(e) => Err(e),
        Ok((item, next)) => if next == tokens.len() {
            Ok(item)
        } else {
            Err(unexpected(tokens, next))
        },
    }
}

/// The one register that the tokens are, all of them.
pub open spec fn single_register(tokens: Seq<TokenView>) -> Result<Register, AsmErrorView> {
    match register_at(tokens, 0) {
        Err(e) => Err(e),
        Ok(register) => if tokens.len() == 1 {
            Ok(register)
        } else {
            Err(unexpected(tokens, 1))
        },
    }
}

/// The items of a source text: its tokens first, all of them, then the items
/// that the tokens make.
pub open spec fn parsed_file(source: Seq<char>) -> Result<Seq<ItemView>, AsmErrorView> {
    match tokens_of(source) {
        Ok(tokens) => items_of(tokens),
        Err(e) => Err(e),
    }
}

/// The one item that a source text is.
pub open spec fn parsed_item(source: Seq<char>) -> Result<ItemView, AsmErrorView> {
    match tokens_of(source) {
        Ok(tokens) => single_item(tokens),
        Err(e) => Err(e),
    }
}

/// The one register that a source text names.
pub open spec fn parsed_register(source: Seq<char>) -> Result<Register, AsmErrorView> {
    match tokens_of(source) {
        Ok(tokens) => single_register(tokens),
        Err(e) => Err(e),
    }
}

/// The error for the token at place `pos`.
fn reject<T>(tokens: &Vec<Token>, pos: usize) -> (r: Result<T, AsmError>)
    ensures
        r matches Err(e) && e@ == unexpected(token_views(tokens@), pos as int),
{
    if pos < tokens.len() {
        Err(AsmError::Parse(Some(tokens[pos].clone())))
    } else {
        Err(AsmError::Parse(None))
    }
}

/// Whether the token at place `pos` is the punctuation mark `mark`.
fn mark_at(tokens: &Vec<Token>, pos: usize, mark: Token) -> (found: bool)
    requires
        mark is Sharp || mark is Minus || mark is Comma || mark is OpenParen || mark is CloseParen,
    ensures
        found == (token_at(token_views(tokens@), pos as int) == Some(mark@)),
        found ==> pos < tokens.len(),
{
    if pos < tokens.len() {
        match (&tokens[pos], mark) {
            (Token::Sharp, Token::Sharp) => true,
            (Token::Minus, Token::Minus) => true,
            (Token::Comma, Token::Comma) => true,
            (Token::OpenParen, Token::OpenParen) => true,
            (Token::CloseParen, Token::CloseParen) => true,
            _ => false,
        }
    } else {
        false
    }
}

fn register_of_token(t: &Token) -> (r: Option<Register>)
    ensures
        r == register_of(t@),
{
    match t {
        Token::R0 => Some(Register::R0),
        Token::R1 => Some(Register::R1),
        Token::R2 => Some(Register::R2),
        Token::R3 => Some(Register::R3),
        Token::R4 => Some(Register::R4),
        Token::R5 => Some(Register::R5),
        Token::R6 => Some(Register::R6),
        Token::R7 => Some(Register::R7),
        _ => None,
    }
}

fn funct_r_of_token(t: &Token) -> (r: Option<FunctR>)
    ensures
        r == funct_r_of(t@),
{
    match t {
        Token::NOP => Some(FunctR::NOP),
        Token::MV => Some(FunctR::MV),
        Token::AND => Some(FunctR::AND),
        Token::OR => Some(FunctR::OR),
        Token::SL => Some(FunctR::SL),
        Token::SR => Some(FunctR::SR),
        Token::ADD => Some(FunctR::ADD),
        Token::SUB => Some(FunctR::SUB),
        Token::ST => Some(FunctR::ST),
        Token::LD => Some(FunctR::LD),
        _ => None,
    }
}

fn opcode_i_of_token(t: &Token) -> (r: Option<OpcodeI>)
    ensures
        r == opcode_i_of(t@),
{
    match t {
        Token::LDI => Some(OpcodeI::LDI),
        Token::LDIU => Some(OpcodeI::LDIU),
        Token::ADDI => Some(OpcodeI::ADDI),
        Token::ADDIU => Some(OpcodeI::ADDIU),
        Token::LDHI => Some(OpcodeI::LDHI),
        _ => None,
    }
}

fn opcode_b_of_token(t: &Token) -> (r: Option<OpcodeB>)
    ensures
        r == opcode_b_of(t@),
{
    match t {
        Token::BEZ => Some(OpcodeB::BEZ),
        Token::BNZ => Some(OpcodeB::BNZ),
        Token::BPL => Some(OpcodeB::BPL),
        Token::BMI => Some(OpcodeB::BMI),
        _ => None,
    }
}

fn opcode_j_of_token(t: &Token) -> (r: Option<OpcodeJ>)
    ensures
        r == opcode_j_of(t@),
{
    match t {
        Token::JMP => Some(OpcodeJ::JMP),
        Token::JAL => Some(OpcodeJ::JAL),
        _ => None,
    }
}

fn funct_jr_of_token(t: &Token) -> (r: Option<FunctJR>)
    ensures
        r == funct_jr_of(t@),
{
    match t {
        Token::JR => Some(FunctJR::JR),
        Token::JALR => Some(FunctJR::JALR),
        _ => None,
    }
}

/// Reads a register at place `pos`.
fn read_register(tokens: &Vec<Token>, pos: usize) -> (r: Result<Register, AsmError>)
    ensures
        match register_at(token_views(tokens@), pos as int) {
            Ok(expected) => r matches Ok(register) && register == expected,
            Err(error) => r matches Err(e) && e@ == error,
        },
{
    if pos < tokens.len() {
        match register_of_token(&tokens[pos]) {
            Some(register) => {
                return Ok(register);
            },
            None => {},
        }
    }
    reject(tokens, pos)
}

/// Reads a name at place `pos`.
fn read_name(tokens: &Vec<Token>, pos: usize) -> (r: Result<String, AsmError>)
    ensures
        match name_at(token_views(tokens@), pos as int) {
            Ok(expected) => r matches Ok(name) && name@ == expected,
            Err(error) => r matches Err(e) && e@ == error,
        },
{
    if pos < tokens.len() {
        match &tokens[pos] {
            Token::Ident(name) => {
                return Ok(name.clone());
            },
            _ => {},
        }
    }
    reject(tokens, pos)
}

/// Reads an immediate operand at place `pos`.
fn read_immediate(tokens: &Vec<Token>, pos: usize) -> (r: Result<(i8, usize), AsmError>)
    ensures
        match immediate_at(token_views(tokens@), pos as int) {
            Ok(expected) => r matches Ok((v, next)) && (v, next as int) == expected,
            Err(error) => r matches Err(e) && e@ == error,
        },
{
    if !mark_at(tokens, pos, Token::Sharp) {
        return reject(tokens, pos);
    }
    let negative: bool = mark_at(tokens, pos + 1, Token::Minus);
    let at: usize = if negative {
        pos + 2
    } else {
        pos + 1
    };
    if at < tokens.len() {
        match &tokens[at] {
            Token::Num(digits) => {
                return match immediate(negative, digits.as_str()) {
                    Ok(v) => Ok((v, at + 1)),
                    Err(e) => Err(e),
                };
            },
            _ => {},
        }
    }
    reject(tokens, at)
}

/// Reads the operands of the R-format operation `funct` at place `pos`.
fn read_r_operands(
    tokens: &Vec<Token>,
    pos: usize,
    funct: FunctR,
) -> (r: Result<(Item, usize), AsmError>)
    requires
        pos <= tokens.len(),
    ensures
        match r_operands_at(token_views(tokens@), pos as int, funct) {
            Ok(expected) => r matches Ok((item, next)) && (item@, next as int) == expected,
            Err(error) => r matches Err(e) && e@ == error,
        },
{
    match funct {
        FunctR::NOP => Ok((Item::instr_r(funct, Register::R0, Register::R0), pos)),
        FunctR::SL | FunctR::SR => {
            let dst = read_register(tokens, pos)?;
            Ok((Item::instr_r(funct, dst, Register::R0), pos + 1))
        },
        FunctR::ST | FunctR::LD => {
            let first = read_register(tokens, pos)?;
            if !mark_at(tokens, pos + 1, Token::Comma) {
                return reject(tokens, pos + 1);
            }
            if !mark_at(tokens, pos + 2, Token::OpenParen) {
                return reject(tokens, pos + 2);
            }
            let second = read_register(tokens, pos + 3)?;
            if !mark_at(tokens, pos + 4, Token::CloseParen) {
                return reject(tokens, pos + 4);
            }
            match funct {
                FunctR::ST => Ok((Item::instr_r(funct, second, first), pos + 5)),
                _ => Ok((Item::instr_r(funct, first, second), pos + 5)),
            }
        },
        _ => {
            let dst = read_register(tokens, pos)?;
            if !mark_at(tokens, pos + 1, Token::Comma) {
                return reject(tokens, pos + 1);
            }
            let src = read_register(tokens, pos + 2)?;
            Ok((Item::instr_r(funct, dst, src), pos + 3))
        },
    }
}

/// Reads the operands of the I-format operation `opcode` at place `pos`.
fn read_i_operands(
    tokens: &Vec<Token>,
    pos: usize,
    opcode: OpcodeI,
) -> (r: Result<(Item, usize), AsmError>)
    requires
        pos <= tokens.len(),
    ensures
        match i_operands_at(token_views(tokens@), pos as int, opcode) {
            Ok(expected) => r matches Ok((item, next)) && (item@, next as int) == expected,
            Err(error) => r matches Err(e) && e@ == error,
        },
{
    let dst = read_register(tokens, pos)?;
    if !mark_at(tokens, pos + 1, Token::Comma) {
        return reject(tokens, pos + 1);
    }
    let (value, next) = read_immediate(tokens, pos + 2)?;
    Ok((Item::instr_i(opcode, dst, value), next))
}

/// Reads the operands of the B-format operation `opcode` at place `pos`.
fn read_b_operands(
    tokens: &Vec<Token>,
    pos: usize,
    opcode: OpcodeB,
) -> (r: Result<(Item, usize), AsmError>)
    requires
        pos <= tokens.len(),
    ensures
        match b_operands_at(token_views(tokens@), pos as int, opcode) {
            Ok(expected) => r matches Ok((item, next)) && (item@, next as int) == expected,
            Err(error) => r matches Err(e) && e@ == error,
        },
{
    let src = read_register(tokens, pos)?;
    if !mark_at(tokens, pos + 1, Token::Comma) {
        return reject(tokens, pos + 1);
    }
    let label = read_name(tokens, pos + 2)?;
    Ok((Item::instr_b(opcode, src, label), pos + 3))
}

/// Reads one item at place `pos` of `tokens`; gives it with the place behind
/// its last token.
pub fn read_item(tokens: &Vec<Token>, pos: usize) -> (r: Result<(Item, usize), AsmError>)
    ensures
        match item_at(token_views(tokens@), pos as int) {
            Ok(expected) => r matches Ok((item, next)) && (item@, next as int) == expected,
            Err(error) => r matches Err(e) && e@ == error,
        },
{
    if pos >= tokens.len() {
        return reject(tokens, pos);
    }
    let head = &tokens[pos];
    if let Token::Colon = head {
        let name = read_name(tokens, pos + 1)?;
        return Ok((Item::label(name), pos + 2));
    }
    if let Some(funct) = funct_r_of_token(head) {
        return read_r_operands(tokens, pos + 1, funct);
    }
    if let Some(opcode) = opcode_i_of_token(head) {
        return read_i_operands(tokens, pos + 1, opcode);
    }
    if let Some(opcode) = opcode_b_of_token(head) {
        return read_b_operands(tokens, pos + 1, opcode);
    }
    if let Some(opcode) = opcode_j_of_token(head) {
        let label = read_name(tokens, pos + 1)?;
        return Ok((Item::instr_j(opcode, label), pos + 2));
    }
    if let Some(funct) = funct_jr_of_token(head) {
        let dst = read_register(tokens, pos + 1)?;
        return Ok((Item::instr_jr(funct, dst), pos + 2));
    }
    reject(tokens, pos)
}

/// Reads the items that `tokens` make, all of them.
pub fn parse_tokens(tokens: &Vec<Token>) -> (r: Result<Vec<Item>, AsmError>)
    ensures
        match items_of(token_views(tokens@)) {
            Ok(expected) => r matches Ok(items) && item_views(items@) == expected,
            Err(error) => r matches Err(e) && e@ == error,
        },
{
    let ghost views = token_views(tokens@);
    let mut items: Vec<Item> = Vec::new();
    let mut pos: usize = 0;
    while pos < tokens.len()
        invariant
            views == token_views(tokens@),
            pos <= tokens.len(),
            items_of(views) == match items_from(views, pos as int) {
                Ok(rest) => Ok::<Seq<ItemView>, AsmErrorView>(item_views(items@) + rest),
                Err(e) => Err(e),
            },
        decreases tokens.len() - pos,
    {
        let ghost seen = item_views(items@);
        let (item, next) = read_item(tokens, pos)?;
        proof {
            let rest = items_from(views, next as int);
            if rest is Ok {
                assert(seen + (seq![item@] + rest->Ok_0) =~= seen.push(item@) + rest->Ok_0);
            }
            assert(item_views(items@.push(item)) =~= seen.push(item@));
        }
        items.push(item);
        pos = next;
    }
    assert(item_views(items@) + Seq::<ItemView>::empty() =~= item_views(items@));
    Ok(items)
}

/// Reads a program: the items of the source text `input`, in order.
pub fn parse_file(input: &str) -> (r: Result<Vec<Item>, AsmError>)
    ensures
        match parsed_file(input@) {
            Ok(expected) => r matches Ok(items) && item_views(items@) == expected,
            Err(error) => r matches Err(e) && e@ == error,
        },
{
    let tokens = tokenize(input)?;
    parse_tokens(&tokens)
}

/// Reads a text that is one item and nothing more.
pub fn parse_item(input: &str) -> (r: Result<Item, AsmError>)
    ensures
        match parsed_item(input@) {
            Ok(expected) => r matches Ok(item) && item@ == expected,
            Err(error) => r matches Err(e) && e@ == error,
        },
{
    let tokens = tokenize(input)?;
    let (item, next) = read_item(&tokens, 0)?;
    if next == tokens.len() {
        Ok(item)
    } else {
        reject(&tokens, next)
    }
}

/// Reads a text that is one register name and nothing more.
pub fn parse_register(input: &str) -> (r: Result<Register, AsmError>)
    ensures
        match parsed_register(input@) {
            Ok(expected) => r matches Ok(register) && register == expected,
            Err(error) => r matches Err(e) && e@ == error,
        },
{
    let tokens = tokenize(input)?;
    let register = read_register(&tokens, 0)?;
    if tokens.len() == 1 {
        Ok(register)
    } else {
        reject(&tokens, 1)
    }
}

} // verus!
