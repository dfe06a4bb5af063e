use pasm::lexer::Lexer;
use pasm::token::Token;

fn lex(input: &str) -> Vec<Token> {
    let mut lexer = Lexer::new(input);
    let mut tokens: Vec<Token> = Vec::new();

    while let Some(token) = lexer.next_token().unwrap() {
        tokens.push(token);
    }

    tokens
}

fn token_num(value: u32) -> Token {
    Token::Num(value.to_string())
}

#[test]
fn num() {
    assert_eq!(vec![token_num(0)], lex("0"));
    assert_eq!(vec![token_num(1)], lex("1"));
    assert_eq!(vec![token_num(16)], lex("16"));

    assert_eq!(vec![Token::Minus, token_num(1)], lex("-1"));
    assert_eq!(vec![Token::Minus, token_num(16)], lex("-16"));

    assert_eq!(vec![Token::Sharp, token_num(0)], lex("#0"));
    assert_eq!(vec![Token::Sharp, token_num(1)], lex("#1"));
    assert_eq!(vec![Token::Sharp, token_num(16)], lex("#16"));

    assert_eq!(vec![Token::Sharp, Token::Minus, token_num(1)], lex("#-1"));
    assert_eq!(vec![Token::Sharp, Token::Minus, token_num(16)], lex("#-16"));
}

#[test]
fn symbol() {
    assert_eq!(vec![Token::Sharp], lex("#"));
    assert_eq!(vec![Token::Minus], lex("-"));
    assert_eq!(vec![Token::Comma], lex(","));
    assert_eq!(vec![Token::Colon], lex(":"));
    assert_eq!(vec![Token::OpenParen], lex("("));
    assert_eq!(vec![Token::CloseParen], lex(")"));
}

#[test]
fn ident() {
    assert_eq!(vec![Token::Ident("label".to_string())], lex("label"));
    assert_eq!(
        vec![Token::Colon, Token::Ident("label".to_string())],
        lex(":label")
    );
    assert_eq!(
        vec![Token::Colon, Token::Ident("label1".to_string())],
        lex(":label1")
    );
}

#[test]
fn keyword_instruction() {
    // R instruction
    assert_eq!(vec![Token::NOP], lex("NOP"));
    assert_eq!(vec![Token::MV], lex("MV"));
    assert_eq!(vec![Token::AND], lex("AND"));
    assert_eq!(vec![Token::OR], lex("OR"));
    assert_eq!(vec![Token::SL], lex("SL"));
    assert_eq!(vec![Token::SR], lex("SR"));
    assert_eq!(vec![Token::ADD], lex("ADD"));
    assert_eq!(vec![Token::SUB], lex("SUB"));
    assert_eq!(vec![Token::ST], lex("ST"));
    assert_eq!(vec![Token::LD], lex("LD"));

    // I instruction
    assert_eq!(vec![Token::LDI], lex("LDI"));
    assert_eq!(vec![Token::LDIU], lex("LDIU"));
    assert_eq!(vec![Token::ADDI], lex("ADDI"));
    assert_eq!(vec![Token::ADDIU], lex("ADDIU"));
    assert_eq!(vec![Token::LDHI], lex("LDHI"));

    // B instruction
    assert_eq!(vec![Token::BEZ], lex("BEZ"));
    assert_eq!(vec![Token::BNZ], lex("BNZ"));
    assert_eq!(vec![Token::BPL], lex("BPL"));
    assert_eq!(vec![Token::BMI], lex("BMI"));

    // J instruction
    assert_eq!(vec![Token::JMP], lex("JMP"));
    assert_eq!(vec![Token::JAL], lex("JAL"));

    // JR instruction
    assert_eq!(vec![Token::JR], lex("JR"));
    assert_eq!(vec![Token::JALR], lex("JALR"));
}

#[test]
fn keyword_register() {
    assert_eq!(vec![Token::R0], lex("r0"));
    assert_eq!(vec![Token::R1], lex("r1"));
    assert_eq!(vec![Token::R2], lex("r2"));
    assert_eq!(vec![Token::R3], lex("r3"));
    assert_eq!(vec![Token::R4], lex("r4"));
    assert_eq!(vec![Token::R5], lex("r5"));
    assert_eq!(vec![Token::R6], lex("r6"));
    assert_eq!(vec![Token::R7], lex("r7"));
}

#[test]
fn instruction() {
    assert_eq!(vec![Token::NOP], lex("NOP"));

    assert_eq!(
        vec![Token::MV, Token::R0, Token::Comma, Token::R1],
        lex("MV r0, r1")
    );

    assert_eq!(vec![Token::SL, Token::R0], lex("SL r0"));

    assert_eq!(
        vec![Token::ADD, Token::R0, Token::Comma, Token::R1],
        lex("ADD r0, r1")
    );

    assert_eq!(
        vec![
            Token::ST,
            Token::R1,
            Token::Comma,
            Token::OpenParen,
            Token::R0,
            Token::CloseParen
        ],
        lex("ST r1, (r0)")
    );

    assert_eq!(
        vec![
            Token::LDI,
            Token::R0,
            Token::Comma,
            Token::Sharp,
            Token::Minus,
            token_num(10)
        ],
        lex("LDI r0, #-10")
    );

    assert_eq!(
        vec![
            Token::LDI,
            Token::R0,
            Token::Comma,
            Token::Sharp,
            Token::Minus,
            token_num(1)
        ],
        lex("LDI r0, #-1")
    );
    assert_eq!(
        vec![
            Token::LDI,
            Token::R0,
            Token::Comma,
            Token::Sharp,
            token_num(0)
        ],
        lex("LDI r0, #0")
    );
    assert_eq!(
        vec![
            Token::LDI,
            Token::R0,
            Token::Comma,
            Token::Sharp,
            token_num(1)
        ],
        lex("LDI r0, #1")
    );
    assert_eq!(
        vec![
            Token::LDI,
            Token::R0,
            Token::Comma,
            Token::Sharp,
            token_num(10)
        ],
        lex("LDI r0, #10")
    );

    assert_eq!(
        vec![
            Token::BEZ,
            Token::R0,
            Token::Comma,
            Token::Ident("label".to_string())
        ],
        lex("BEZ r0, label")
    );

    assert_eq!(
        vec![Token::JMP, Token::Ident("label".to_string())],
        lex("JMP label")
    );

    assert_eq!(vec![Token::JR, Token::R0], lex("JR r0"));
}
