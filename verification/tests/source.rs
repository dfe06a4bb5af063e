use pasm::ast::Register;
use pasm::error::AsmError;
use pasm::lexer::{keyword, tokenize, CharClass, Lexer};
use pasm::mnemonic::{FunctJR, FunctR, Item, OpcodeI, OpcodeJ};
use pasm::parser::{parse_file, parse_item, parse_register, parse_tokens, read_item};
use pasm::token::Token;

#[test]
fn immediates_at_the_ends_of_the_range() {
    assert_eq!(
        parse_item("LDI r0, #-128"),
        Ok(Item::instr_i(OpcodeI::LDI, Register::R0, -128))
    );
    assert_eq!(
        parse_item("LDI r0, #127"),
        Ok(Item::instr_i(OpcodeI::LDI, Register::R0, 127))
    );
    assert_eq!(
        parse_item("LDI r0, #128"),
        Err(AsmError::ImmediateOutOfRange("128".to_string()))
    );
    assert_eq!(
        parse_item("LDI r0, #-129"),
        Err(AsmError::ImmediateOutOfRange("-129".to_string()))
    );
    assert_eq!(
        parse_item("ADDI r3, #0000000000000000000000000127"),
        Ok(Item::instr_i(OpcodeI::ADDI, Register::R3, 127))
    );
    assert_eq!(
        parse_item("ADDI r3, #340282366920938463463374607431768211456"),
        Err(AsmError::ImmediateOutOfRange(
            "340282366920938463463374607431768211456".to_string()
        ))
    );
    assert_eq!(
        parse_item("LDHI r1, #-0"),
        Ok(Item::instr_i(OpcodeI::LDHI, Register::R1, 0))
    );
    assert_eq!(
        parse_item("LDHI r1, # - 5"),
        Ok(Item::instr_i(OpcodeI::LDHI, Register::R1, -5))
    );
}

#[test]
fn unknown_character_is_a_lex_error() {
    assert_eq!(tokenize("LDI r0, $5"), Err(AsmError::Lex(Some('$'))));
    assert_eq!(parse_file("NOP\n;comment"), Err(AsmError::Lex(Some(';'))));
    assert_eq!(parse_item("ADD r0, r1 \u{e9}"), Err(AsmError::Lex(Some('\u{e9}'))));
    assert_eq!(parse_register("r0 ?"), Err(AsmError::Lex(Some('?'))));
    // the whole text is read into tokens before any of it is parsed
    assert_eq!(parse_file("ADD ADD !"), Err(AsmError::Lex(Some('!'))));
}

#[test]
fn lexer_stays_at_the_character_it_cannot_read() {
    let mut lexer = Lexer::new("r1 @ r2");
    assert_eq!(lexer.next_token(), Ok(Some(Token::R1)));
    assert_eq!(lexer.next_token(), Err(AsmError::Lex(Some('@'))));
    assert_eq!(lexer.next_token(), Err(AsmError::Lex(Some('@'))));
}

#[test]
fn lexer_ends_with_none() {
    let mut lexer = Lexer::new("  ,  ");
    assert_eq!(lexer.next_token(), Ok(Some(Token::Comma)));
    assert_eq!(lexer.next_token(), Ok(None));
    assert_eq!(lexer.next_token(), Ok(None));
    let mut lexer = Lexer::new("");
    assert_eq!(lexer.next_token(), Ok(None));
}

#[test]
fn tokens_run_as_far_as_they_can() {
    assert_eq!(
        tokenize("12ab_3 ADDx r01 _r1 R1 nop"),
        Ok(vec![
            Token::Num("12".to_string()),
            Token::Ident("ab_3".to_string()),
            Token::Ident("ADDx".to_string()),
            Token::Ident("r01".to_string()),
            Token::Ident("_r1".to_string()),
            Token::Ident("R1".to_string()),
            Token::Ident("nop".to_string()),
        ])
    );
    assert_eq!(
        tokenize("#-,:()"),
        Ok(vec![
            Token::Sharp,
            Token::Minus,
            Token::Comma,
            Token::Colon,
            Token::OpenParen,
            Token::CloseParen,
        ])
    );
    assert_eq!(
        tokenize("ADDIU(r7)JALR"),
        Ok(vec![
            Token::ADDIU,
            Token::OpenParen,
            Token::R7,
            Token::CloseParen,
            Token::JALR,
        ])
    );
}

#[test]
fn white_space_of_every_kind_parts_tokens() {
    let spaces = [
        '\u{9}', '\u{a}', '\u{b}', '\u{c}', '\u{d}', ' ', '\u{85}', '\u{a0}', '\u{1680}',
        '\u{2000}', '\u{2005}', '\u{200a}', '\u{2028}', '\u{2029}', '\u{202f}', '\u{205f}',
        '\u{3000}',
    ];
    for space in spaces {
        assert!(space.is_whitespace());
        assert!(CharClass::Space.holds(space));
        let source = format!("r1{}r2", space);
        assert_eq!(tokenize(&source), Ok(vec![Token::R1, Token::R2]));
    }
    for other in ['\u{8}', '\u{e}', '\u{200b}', '\u{feff}', 'a', '0', '_'] {
        assert!(!other.is_whitespace());
        assert!(!CharClass::Space.holds(other));
    }
    assert!(CharClass::Digit.holds('0') && CharClass::Digit.holds('9'));
    assert!(!CharClass::Digit.holds('/') && !CharClass::Digit.holds(':'));
    assert!(!CharClass::Digit.holds('\u{663}'));
    assert!(CharClass::Word.holds('a') && CharClass::Word.holds('Z') && CharClass::Word.holds('_'));
    assert!(CharClass::Word.holds('5'));
    assert!(!CharClass::Word.holds('-') && !CharClass::Word.holds('\u{e9}'));
}

#[test]
fn keyword_table() {
    assert_eq!(keyword("ADDIU"), Some(Token::ADDIU));
    assert_eq!(keyword("r7"), Some(Token::R7));
    assert_eq!(keyword("JALR"), Some(Token::JALR));
    assert_eq!(keyword("r8"), None);
    assert_eq!(keyword("add"), None);
    assert_eq!(keyword(""), None);
    assert_eq!(keyword("ADDIUX"), None);
}

#[test]
fn missing_operand_is_a_parse_error() {
    assert_eq!(parse_item("ADD r0"), Err(AsmError::Parse(None)));
    assert_eq!(parse_item("ADD r0,"), Err(AsmError::Parse(None)));
    assert_eq!(parse_item("ADD"), Err(AsmError::Parse(None)));
    assert_eq!(parse_item(""), Err(AsmError::Parse(None)));
    assert_eq!(parse_item(":"), Err(AsmError::Parse(None)));
    assert_eq!(parse_item("JMP"), Err(AsmError::Parse(None)));
    assert_eq!(parse_item("LDI r1, #"), Err(AsmError::Parse(None)));
    assert_eq!(parse_item("LDI r1, #-"), Err(AsmError::Parse(None)));
    assert_eq!(parse_item("LD r1, (r2"), Err(AsmError::Parse(None)));
}

#[test]
fn wrong_operand_is_a_parse_error() {
    assert_eq!(
        parse_item("ADD r0 r1"),
        Err(AsmError::Parse(Some(Token::R1)))
    );
    assert_eq!(
        parse_item("ADD r0, #1"),
        Err(AsmError::Parse(Some(Token::Sharp)))
    );
    assert_eq!(
        parse_item("LDI r0, 1"),
        Err(AsmError::Parse(Some(Token::Num("1".to_string()))))
    );
    assert_eq!(
        parse_item("LDI r0, #r1"),
        Err(AsmError::Parse(Some(Token::R1)))
    );
    assert_eq!(
        parse_item("LDI r0, #--1"),
        Err(AsmError::Parse(Some(Token::Minus)))
    );
    assert_eq!(
        parse_item("BEZ r0, r1"),
        Err(AsmError::Parse(Some(Token::R1)))
    );
    assert_eq!(
        parse_item("BEZ label"),
        Err(AsmError::Parse(Some(Token::Ident("label".to_string()))))
    );
    assert_eq!(
        parse_item("JMP r1"),
        Err(AsmError::Parse(Some(Token::R1)))
    );
    assert_eq!(
        parse_item("JMP ADD"),
        Err(AsmError::Parse(Some(Token::ADD)))
    );
    assert_eq!(
        parse_item("JR label"),
        Err(AsmError::Parse(Some(Token::Ident("label".to_string()))))
    );
    assert_eq!(
        parse_item("ST r0, r1"),
        Err(AsmError::Parse(Some(Token::R1)))
    );
    assert_eq!(
        parse_item("LD r0, (r1,"),
        Err(AsmError::Parse(Some(Token::Comma)))
    );
    assert_eq!(
        parse_item("MV r0, (r1)"),
        Err(AsmError::Parse(Some(Token::OpenParen)))
    );
    assert_eq!(
        parse_item(":r1"),
        Err(AsmError::Parse(Some(Token::R1)))
    );
    assert_eq!(
        parse_item(": 12"),
        Err(AsmError::Parse(Some(Token::Num("12".to_string()))))
    );
}

#[test]
fn token_that_begins_no_item_is_a_parse_error() {
    assert_eq!(
        parse_file("NOP r0"),
        Err(AsmError::Parse(Some(Token::R0)))
    );
    assert_eq!(
        parse_file("label"),
        Err(AsmError::Parse(Some(Token::Ident("label".to_string()))))
    );
    assert_eq!(
        parse_file("ADD r0, r1, r2"),
        Err(AsmError::Parse(Some(Token::Comma)))
    );
    assert_eq!(
        parse_file("NOP 7"),
        Err(AsmError::Parse(Some(Token::Num("7".to_string()))))
    );
    assert_eq!(
        parse_file("SL r1, r2"),
        Err(AsmError::Parse(Some(Token::Comma)))
    );
    assert_eq!(
        parse_file("UNKNOWN r1"),
        Err(AsmError::Parse(Some(Token::Ident("UNKNOWN".to_string()))))
    );
}

#[test]
fn single_item_takes_the_whole_text() {
    assert_eq!(
        parse_item("NOP NOP"),
        Err(AsmError::Parse(Some(Token::NOP)))
    );
    assert_eq!(
        parse_item("JR r1 :l"),
        Err(AsmError::Parse(Some(Token::Colon)))
    );
    assert_eq!(
        parse_item("  JALR   r6  "),
        Ok(Item::instr_jr(FunctJR::JALR, Register::R6))
    );
    assert_eq!(
        parse_item("JAL  there"),
        Ok(Item::instr_j(OpcodeJ::JAL, "there".into()))
    );
}

#[test]
fn single_register_takes_the_whole_text() {
    assert_eq!(parse_register(" r5 "), Ok(Register::R5));
    assert_eq!(parse_register(""), Err(AsmError::Parse(None)));
    assert_eq!(
        parse_register("r8"),
        Err(AsmError::Parse(Some(Token::Ident("r8".to_string()))))
    );
    assert_eq!(
        parse_register("r1 r2"),
        Err(AsmError::Parse(Some(Token::R2)))
    );
    assert_eq!(
        parse_register("(r1)"),
        Err(AsmError::Parse(Some(Token::OpenParen)))
    );
}

#[test]
fn items_are_read_from_tokens() {
    let tokens = vec![
        Token::Colon,
        Token::Ident("a".to_string()),
        Token::ST,
        Token::R3,
        Token::Comma,
        Token::OpenParen,
        Token::R4,
        Token::CloseParen,
        Token::SR,
        Token::R2,
    ];
    assert_eq!(read_item(&tokens, 0), Ok((Item::label("a".to_string()), 2)));
    assert_eq!(
        read_item(&tokens, 2),
        Ok((Item::instr_r(FunctR::ST, Register::R4, Register::R3), 8))
    );
    assert_eq!(
        read_item(&tokens, 8),
        Ok((Item::instr_r(FunctR::SR, Register::R2, Register::R0), 10))
    );
    assert_eq!(read_item(&tokens, 10), Err(AsmError::Parse(None)));
    assert_eq!(read_item(&tokens, usize::MAX), Err(AsmError::Parse(None)));
    assert_eq!(
        read_item(&tokens, 1),
        Err(AsmError::Parse(Some(Token::Ident("a".to_string()))))
    );
    assert_eq!(
        parse_tokens(&tokens),
        Ok(vec![
            Item::label("a".to_string()),
            Item::instr_r(FunctR::ST, Register::R4, Register::R3),
            Item::instr_r(FunctR::SR, Register::R2, Register::R0),
        ])
    );
    assert_eq!(parse_tokens(&Vec::new()), Ok(Vec::new()));
}

#[test]
fn number_token_that_is_no_number() {
    let tokens = vec![
        Token::LDI,
        Token::R0,
        Token::Comma,
        Token::Sharp,
        Token::Num("1x".to_string()),
    ];
    assert_eq!(parse_tokens(&tokens), Err(AsmError::Lex(Some('x'))));
    let tokens = vec![
        Token::LDI,
        Token::R0,
        Token::Comma,
        Token::Sharp,
        Token::Num(String::new()),
    ];
    assert_eq!(parse_tokens(&tokens), Err(AsmError::Lex(None)));
}

#[test]
fn character_classes_agree_with_the_unicode_tables() {
    for c in '\u{0}'..=char::MAX {
        assert_eq!(CharClass::Space.holds(c), c.is_whitespace(), "{:?}", c);
        assert_eq!(CharClass::Digit.holds(c), c.is_ascii_digit(), "{:?}", c);
        assert_eq!(
            CharClass::Word.holds(c),
            c.is_ascii_alphanumeric() || c == '_',
            "{:?}",
            c
        );
    }
}
