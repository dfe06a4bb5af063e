use vstd::prelude::*;
use crate::token::{Token, TokenView};

verus! {

/// Why a source text could not be assembled. Every stage stops at its first
/// error; nothing is produced for a text that has one.
#[derive(Debug, PartialEq, Eq)]
pub enum AsmError {
    /// The tokenizer met a character that starts no token (`Some`), or a
    /// literal ended before it had a digit (`None`).
    Lex(Option<char>),
    /// The parser met a token that the grammar does not allow at its place;
    /// `None` stands for the end of the input.
    Parse(Option<Token>),
    /// A branch or jump names a label that the program does not declare.
    UndefinedLabel(String),
    /// An immediate literal, given as written with its sign, lies outside
    /// `-128..=127`.
    ImmediateOutOfRange(String),
    /// The distance from a branch or jump to the label it names does not fit
    /// the displacement field of its format.
    DisplacementOverflow(String),
}

/// What an [`AsmError`] stands for in contracts.
pub enum AsmErrorView {
    Lex(Option<char>),
    Parse(Option<TokenView>),
    UndefinedLabel(Seq<char>),
    ImmediateOutOfRange(Seq<char>),
    DisplacementOverflow(Seq<char>),
}

impl View for AsmError {
    type V = AsmErrorView;

    open spec fn view(&self) -> AsmErrorView {
        match self {
            AsmError::Lex(c) => AsmErrorView::Lex(*c),
            AsmError::Parse(Some(t)) => AsmErrorView::Parse(Some(t@)),
            AsmError::Parse(None) => AsmErrorView::Parse(None),
            AsmError::UndefinedLabel(l) => AsmErrorView::UndefinedLabel(l@),
            AsmError::ImmediateOutOfRange(l) => AsmErrorView::ImmediateOutOfRange(l@),
            AsmError::DisplacementOverflow(l) => AsmErrorView::DisplacementOverflow(l@),
        }
    }
}

impl Clone for AsmError {
    fn clone(&self) -> (r: Self)
        ensures
            r@ == self@,
    {
        match self {
            AsmError::Lex(c) => AsmError::Lex(*c),
            AsmError::Parse(Some(t)) => AsmError::Parse(Some(t.clone())),
            AsmError::Parse(None) => AsmError::Parse(None),
            AsmError::UndefinedLabel(l) => AsmError::UndefinedLabel(l.clone()),
            AsmError::ImmediateOutOfRange(l) => AsmError::ImmediateOutOfRange(l.clone()),
            AsmError::DisplacementOverflow(l) => AsmError::DisplacementOverflow(l.clone()),
        }
    }
}

} // verus!
