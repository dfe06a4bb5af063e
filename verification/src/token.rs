use vstd::prelude::*;

verus! {

/// A lexical unit of assembly text.
#[derive(Debug, PartialEq, Eq)]
pub enum Token {
    /// A run of decimal digits, kept as written: `1`
    Num(String),
    /// A name that is no keyword: `label0`, `end`
    Ident(String),
    NOP,
    MV,
    AND,
    OR,
    SL,
    SR,
    ADD,
    SUB,
    ST,
    LD,
    LDI,
    LDIU,
    ADDI,
    ADDIU,
    LDHI,
    BEZ,
    BNZ,
    BPL,
    BMI,
    JMP,
    JAL,
    JR,
    JALR,
    R0,
    R1,
    R2,
    R3,
    R4,
    R5,
    R6,
    R7,
    /// `#`
    Sharp,
    /// `-`
    Minus,
    /// `,`
    Comma,
    /// `:`
    Colon,
    /// `(`
    OpenParen,
    /// `)`
    CloseParen,
}

/// What a [`Token`] stands for in contracts: the same variants, with the text
/// of a number or a name as a sequence of characters.
pub enum TokenView {
    Num(Seq<char>),
    Ident(Seq<char>),
    NOP,
    MV,
    AND,
    OR,
    SL,
    SR,
    ADD,
    SUB,
    ST,
    LD,
    LDI,
    LDIU,
    ADDI,
    ADDIU,
    LDHI,
    BEZ,
    BNZ,
    BPL,
    BMI,
    JMP,
    JAL,
    JR,
    JALR,
    R0,
    R1,
    R2,
    R3,
    R4,
    R5,
    R6,
    R7,
    Sharp,
    Minus,
    Comma,
    Colon,
    OpenParen,
    CloseParen,
}

impl View for Token {
    type V = TokenView;

    open spec fn view(&self) -> TokenView {
        match self {
            Token::Num(s) => TokenView::Num(s@),
            Token::Ident(s) => TokenView::Ident(s@),
            Token::NOP => TokenView::NOP,
            Token::MV => TokenView::MV,
            Token::AND => TokenView::AND,
            Token::OR => TokenView::OR,
            Token::SL => TokenView::SL,
            Token::SR => TokenView::SR,
            Token::ADD => TokenView::ADD,
            Token::SUB => TokenView::SUB,
            Token::ST => TokenView::ST,
            Token::LD => TokenView::LD,
            Token::LDI => TokenView::LDI,
            Token::LDIU => TokenView::LDIU,
            Token::ADDI => TokenView::ADDI,
            Token::ADDIU => TokenView::ADDIU,
            Token::LDHI => TokenView::LDHI,
            Token::BEZ => TokenView::BEZ,
            Token::BNZ => TokenView::BNZ,
            Token::BPL => TokenView::BPL,
            Token::BMI => TokenView::BMI,
            Token::JMP => TokenView::JMP,
            Token::JAL => TokenView::JAL,
            Token::JR => TokenView::JR,
            Token::JALR => TokenView::JALR,
            Token::R0 => TokenView::R0,
            Token::R1 => TokenView::R1,
            Token::R2 => TokenView::R2,
            Token::R3 => TokenView::R3,
            Token::R4 => TokenView::R4,
            Token::R5 => TokenView::R5,
            Token::R6 => TokenView::R6,
            Token::R7 => TokenView::R7,
            Token::Sharp => TokenView::Sharp,
            Token::Minus => TokenView::Minus,
            Token::Comma => TokenView::Comma,
            Token::Colon => TokenView::Colon,
            Token::OpenParen => TokenView::OpenParen,
            Token::CloseParen => TokenView::CloseParen,
        }
    }
}

impl Clone for Token {
    fn clone(&self) -> (r: Self)
        ensures
            r@ == self@,
    {
        match self {
            Token::Num(s) => Token::Num(s.clone()),
            Token::Ident(s) => Token::Ident(s.clone()),
            Token::NOP => Token::NOP,
            Token::MV => Token::MV,
            Token::AND => Token::AND,
            Token::OR => Token::OR,
            Token::SL => Token::SL,
            Token::SR => Token::SR,
            Token::ADD => Token::ADD,
            Token::SUB => Token::SUB,
            Token::ST => Token::ST,
            Token::LD => Token::LD,
            Token::LDI => Token::LDI,
            Token::LDIU => Token::LDIU,
            Token::ADDI => Token::ADDI,
            Token::ADDIU => Token::ADDIU,
            Token::LDHI => Token::LDHI,
            Token::BEZ => Token::BEZ,
            Token::BNZ => Token::BNZ,
            Token::BPL => Token::BPL,
            Token::BMI => Token::BMI,
            Token::JMP => Token::JMP,
            Token::JAL => Token::JAL,
            Token::JR => Token::JR,
            Token::JALR => Token::JALR,
            Token::R0 => Token::R0,
            Token::R1 => Token::R1,
            Token::R2 => Token::R2,
            Token::R3 => Token::R3,
            Token::R4 => Token::R4,
            Token::R5 => Token::R5,
            Token::R6 => Token::R6,
            Token::R7 => Token::R7,
            Token::Sharp => Token::Sharp,
            Token::Minus => Token::Minus,
            Token::Comma => Token::Comma,
            Token::Colon => Token::Colon,
            Token::OpenParen => Token::OpenParen,
            Token::CloseParen => Token::CloseParen,
        }
    }
}

} // verus!
