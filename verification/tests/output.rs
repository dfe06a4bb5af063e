use pasm::assembler::assemble_source;
use pasm::ast::{Instruction, Parenthesized, Register};
use pasm::code::{emit, Code};
use pasm::encode::encode;
use pasm::error::AsmError;
use pasm::lit::{immediate, Lit, LitInt};
use pasm::mnemonic::{
    FunctJR, FunctR, InstructionB, InstructionI, InstructionJ, InstructionJR, InstructionR, Item,
    Mnemonic, OpcodeB, OpcodeI, OpcodeJ,
};
use pasm::parser::parse_item;

fn literal(text: &str) -> LitInt {
    LitInt {
        digits: text.to_string(),
    }
}

#[test]
fn line_of_an_immediate_instruction() {
    let m = Mnemonic::instr_i(OpcodeI::LDI, Register::R1, 1);
    let code = Code::new(0b01000_001_00000001, m);
    assert_eq!(code.get_code(), 0b01000_001_00000001);
    assert_eq!(
        code.get_line(true, true),
        "01000_001_00000001   // LDI r1, #1"
    );
    assert_eq!(code.get_line(true, false), "01000_001_00000001   ");
    assert_eq!(code.get_line(false, true), "0100000100000001 // LDI r1, #1");
    assert_eq!(code.get_line(false, false), "0100000100000001 ");
}

#[test]
fn line_of_each_format() {
    let add = Code::new(
        0b00000_000_001_00110,
        Mnemonic::instr_r(FunctR::ADD, Register::R0, Register::R1),
    );
    assert_eq!(
        add.get_line(true, true),
        "00000_000_001_00110  // ADD r0, r1"
    );
    let bez = Code::new(
        0b10000_011_11111101,
        Mnemonic::instr_b(OpcodeB::BEZ, Register::R3, "loop".into()),
    );
    assert_eq!(
        bez.get_line(true, true),
        "10000_011_11111101   // BEZ r3, loop"
    );
    let jmp = Code::new(
        0b10100_11111111101,
        Mnemonic::instr_j(OpcodeJ::JMP, "loop".into()),
    );
    assert_eq!(
        jmp.get_line(true, true),
        "10100_11111111101    // JMP loop"
    );
    assert_eq!(jmp.get_line(false, true), "1010011111111101 // JMP loop");
    let jr = Code::new(
        0b00000_101_000_01010,
        Mnemonic::instr_jr(FunctJR::JR, Register::R5),
    );
    assert_eq!(jr.get_line(true, true), "00000_101_000_01010  // JR r5");
}

#[test]
fn grouped_line_shows_the_bits_of_the_word() {
    // the fields are cut from the word, whatever instruction stands beside it
    let code = Code::new(
        0b11111_010_101_10001,
        Mnemonic::instr_r(FunctR::NOP, Register::R0, Register::R0),
    );
    assert_eq!(code.get_line(true, false), "11111_010_101_10001  ");
    assert_eq!(code.get_line(false, false), "1111101010110001 ");
    let code = Code::new(0, Mnemonic::instr_j(OpcodeJ::JAL, "x".into()));
    assert_eq!(code.get_line(true, true), "00000_00000000000    // JAL x");
    let code = Code::new(u16::MAX, Mnemonic::instr_i(OpcodeI::LDHI, Register::R7, -1));
    assert_eq!(
        code.get_line(true, true),
        "11111_111_11111111   // LDHI r7, #-1"
    );
}

#[test]
fn lines_of_a_program() {
    let codes = assemble_source(":top LDI r1, #-128 ST r1, (r0) BNZ r1, top JMP top").unwrap();
    assert_eq!(
        emit(&codes, true, true),
        vec![
            "01000_001_10000000   // LDI r1, #-128",
            "00000_000_001_01000  // ST r1, (r0)",
            "10001_001_11111110   // BNZ r1, top",
            "10100_11111111101    // JMP top",
        ]
    );
    assert_eq!(
        emit(&codes, false, false),
        vec![
            "0100000110000000 ",
            "0000000000101000 ",
            "1000100111111110 ",
            "1010011111111101 ",
        ]
    );
    assert!(emit(&Vec::new(), true, true).is_empty());
}

#[test]
fn text_of_each_instruction() {
    let r = |funct: FunctR| {
        InstructionR {
            funct,
            dst: Register::R1,
            src: Register::R2,
        }
        .to_text()
    };
    assert_eq!(r(FunctR::NOP), "NOP");
    assert_eq!(r(FunctR::MV), "MV r1, r2");
    assert_eq!(r(FunctR::AND), "AND r1, r2");
    assert_eq!(r(FunctR::OR), "OR r1, r2");
    assert_eq!(r(FunctR::SL), "SL r1");
    assert_eq!(r(FunctR::SR), "SR r1");
    assert_eq!(r(FunctR::ADD), "ADD r1, r2");
    assert_eq!(r(FunctR::SUB), "SUB r1, r2");
    assert_eq!(r(FunctR::ST), "ST r2, (r1)");
    assert_eq!(r(FunctR::LD), "LD r1, (r2)");
    let i = |opcode: OpcodeI, immediate: i8| {
        InstructionI {
            opcode,
            dst: Register::R6,
            immediate,
        }
        .to_text()
    };
    assert_eq!(i(OpcodeI::LDI, 0), "LDI r6, #0");
    assert_eq!(i(OpcodeI::LDIU, 9), "LDIU r6, #9");
    assert_eq!(i(OpcodeI::ADDI, 10), "ADDI r6, #10");
    assert_eq!(i(OpcodeI::ADDIU, 127), "ADDIU r6, #127");
    assert_eq!(i(OpcodeI::LDHI, -128), "LDHI r6, #-128");
    assert_eq!(i(OpcodeI::LDI, -7), "LDI r6, #-7");
    assert_eq!(i(OpcodeI::LDI, -99), "LDI r6, #-99");
    assert_eq!(i(OpcodeI::LDI, 100), "LDI r6, #100");
    assert_eq!(i(OpcodeI::LDI, 105), "LDI r6, #105");
    let b = |opcode: OpcodeB| {
        InstructionB {
            opcode,
            src: Register::R4,
            label: "go".to_string(),
        }
        .to_text()
    };
    assert_eq!(b(OpcodeB::BEZ), "BEZ r4, go");
    assert_eq!(b(OpcodeB::BNZ), "BNZ r4, go");
    assert_eq!(b(OpcodeB::BPL), "BPL r4, go");
    assert_eq!(b(OpcodeB::BMI), "BMI r4, go");
    let j = |opcode: OpcodeJ| {
        InstructionJ {
            opcode,
            label: "go".to_string(),
        }
        .to_text()
    };
    assert_eq!(j(OpcodeJ::JMP), "JMP go");
    assert_eq!(j(OpcodeJ::JAL), "JAL go");
    let jr = |funct: FunctJR| {
        InstructionJR {
            funct,
            dst: Register::R0,
        }
        .to_text()
    };
    assert_eq!(jr(FunctJR::JR), "JR r0");
    assert_eq!(jr(FunctJR::JALR), "JALR r0");
    assert_eq!(Item::label("go".to_string()).to_text(), ":go");
    assert_eq!(
        Item::instr_j(OpcodeJ::JMP, "go".to_string()).to_text(),
        "JMP go"
    );
}

#[test]
fn text_of_an_instruction_reads_back() {
    let items = vec![
        Item::instr_r(FunctR::NOP, Register::R0, Register::R0),
        Item::instr_r(FunctR::SL, Register::R3, Register::R0),
        Item::instr_r(FunctR::ST, Register::R3, Register::R4),
        Item::instr_r(FunctR::LD, Register::R3, Register::R4),
        Item::instr_r(FunctR::SUB, Register::R7, Register::R6),
        Item::instr_i(OpcodeI::ADDIU, Register::R2, -128),
        Item::instr_b(OpcodeB::BPL, Register::R1, "a_1".to_string()),
        Item::instr_j(OpcodeJ::JAL, "Z".to_string()),
        Item::instr_jr(FunctJR::JALR, Register::R5),
        Item::label("_x9".to_string()),
    ];
    for item in items {
        assert_eq!(parse_item(&item.to_text()), Ok(item));
    }
}

#[test]
fn literal_to_immediate() {
    assert_eq!(literal("0").to_immediate(), Ok(0));
    assert_eq!(literal("127").to_immediate(), Ok(127));
    assert_eq!(literal("+127").to_immediate(), Ok(127));
    assert_eq!(literal("-128").to_immediate(), Ok(-128));
    assert_eq!(literal("-0").to_immediate(), Ok(0));
    assert_eq!(literal("007").to_immediate(), Ok(7));
    assert_eq!(
        literal("128").to_immediate(),
        Err(AsmError::ImmediateOutOfRange("128".to_string()))
    );
    assert_eq!(
        literal("-129").to_immediate(),
        Err(AsmError::ImmediateOutOfRange("-129".to_string()))
    );
    assert_eq!(
        literal("+128").to_immediate(),
        Err(AsmError::ImmediateOutOfRange("128".to_string()))
    );
    assert_eq!(
        literal("99999999999999999999999").to_immediate(),
        Err(AsmError::ImmediateOutOfRange(
            "99999999999999999999999".to_string()
        ))
    );
    assert_eq!(literal("").to_immediate(), Err(AsmError::Lex(None)));
    assert_eq!(literal("-").to_immediate(), Err(AsmError::Lex(None)));
    assert_eq!(literal("+").to_immediate(), Err(AsmError::Lex(None)));
    assert_eq!(literal("12a").to_immediate(), Err(AsmError::Lex(Some('a'))));
    assert_eq!(literal("--1").to_immediate(), Err(AsmError::Lex(Some('-'))));
    assert_eq!(literal(" 1").to_immediate(), Err(AsmError::Lex(Some(' '))));
    assert_eq!(
        literal("\u{663}").to_immediate(),
        Err(AsmError::Lex(Some('\u{663}')))
    );
    assert_eq!(literal("5").to_text(), "5");
}

#[test]
fn immediate_of_digits_and_sign() {
    assert_eq!(immediate(false, "42"), Ok(42));
    assert_eq!(immediate(true, "42"), Ok(-42));
    assert_eq!(immediate(true, "128"), Ok(-128));
    assert_eq!(
        immediate(false, "128"),
        Err(AsmError::ImmediateOutOfRange("128".to_string()))
    );
    assert_eq!(
        immediate(true, "129"),
        Err(AsmError::ImmediateOutOfRange("-129".to_string()))
    );
    assert_eq!(
        immediate(false, "1290"),
        Err(AsmError::ImmediateOutOfRange("1290".to_string()))
    );
    assert_eq!(immediate(false, "-1"), Err(AsmError::Lex(Some('-'))));
    assert_eq!(immediate(true, ""), Err(AsmError::Lex(None)));
}

#[test]
fn literal_from_a_number_reads_back() {
    for n in i8::MIN..=i8::MAX {
        let lit = Lit::from(n);
        assert_eq!(lit.to_text(), n.to_string());
        let Lit::Int(int) = lit;
        assert_eq!(int.to_immediate(), Ok(n));
    }
}

#[test]
fn written_instruction_with_a_literal_out_of_range() {
    let line = Instruction::LDI {
        dst: Register::R0,
        src: Lit::Int(literal("300")),
    };
    assert_eq!(
        encode(line),
        Err(AsmError::ImmediateOutOfRange("300".to_string()))
    );
    let line = Instruction::ADDI {
        dst: Register::R0,
        src: Lit::Int(literal("-128")),
    };
    assert_eq!(
        encode(line),
        Ok(Mnemonic::instr_i(OpcodeI::ADDI, Register::R0, -128))
    );
    let line = Instruction::ADDI {
        dst: Register::R0,
        src: Lit::Int(literal("x")),
    };
    assert_eq!(encode(line), Err(AsmError::Lex(Some('x'))));
    let line = Instruction::ST {
        dst: Parenthesized(Register::R6),
        src: Register::R2,
    };
    assert_eq!(
        encode(line),
        Ok(Mnemonic::instr_r(FunctR::ST, Register::R6, Register::R2))
    );
}

#[test]
fn errors_and_values_can_be_copied() {
    let errors = vec![
        AsmError::Lex(Some('x')),
        AsmError::Lex(None),
        AsmError::Parse(Some(pasm::token::Token::Ident("n".to_string()))),
        AsmError::Parse(None),
        AsmError::UndefinedLabel("l".to_string()),
        AsmError::ImmediateOutOfRange("-200".to_string()),
        AsmError::DisplacementOverflow("l".to_string()),
    ];
    for e in &errors {
        assert_eq!(&e.clone(), e);
    }
    let line = Instruction::LDI {
        dst: Register::R0,
        src: Lit::Int(literal("3")),
    };
    assert_eq!(line.clone(), line);
    let item = Item::instr_b(OpcodeB::BEZ, Register::R0, "l".to_string());
    assert_eq!(item.clone(), item);
    let code = Code::new(7, Mnemonic::instr_j(OpcodeJ::JMP, "l".to_string()));
    assert_eq!(code.clone(), code);
}

#[test]
fn line_of_every_word() {
    let instructions = vec![
        Mnemonic::instr_r(FunctR::OR, Register::R1, Register::R2),
        Mnemonic::instr_i(OpcodeI::LDIU, Register::R3, 77),
        Mnemonic::instr_b(OpcodeB::BMI, Register::R4, "b".to_string()),
        Mnemonic::instr_j(OpcodeJ::JAL, "j".to_string()),
        Mnemonic::instr_jr(FunctJR::JALR, Register::R5),
    ];
    for m in instructions {
        let comment = format!("// {}", m.to_text());
        for w in 0..=u16::MAX {
            let grouped = match &m {
                Mnemonic::R(_) | Mnemonic::JR(_) => format!(
                    "{:05b}_{:03b}_{:03b}_{:05b}",
                    w >> 11,
                    (w >> 8) & 7,
                    (w >> 5) & 7,
                    w & 31
                ),
                Mnemonic::I(_) | Mnemonic::B(_) => {
                    format!("{:05b}_{:03b}_{:08b}", w >> 11, (w >> 8) & 7, w & 255)
                }
                Mnemonic::J(_) => format!("{:05b}_{:011b}", w >> 11, w & 2047),
            };
            let code = Code::new(w, m.clone());
            assert_eq!(
                code.get_line(true, true),
                format!("{:<20} {}", grouped, comment)
            );
            assert_eq!(
                code.get_line(false, false),
                format!("{:<16} {}", format!("{:016b}", w), "")
            );
            assert_eq!(grouped.replace('_', ""), format!("{:016b}", w));
        }
    }
}

#[test]
fn literals_read_as_the_standard_parser_reads_them() {
    let alphabet = ['+', '-', '0', '1', '2', '8', '9', ' ', 'a', '\u{663}'];
    let mut texts: Vec<String> = vec![String::new()];
    let mut start = 0;
    for _ in 0..4 {
        let end = texts.len();
        for i in start..end {
            for c in alphabet {
                let mut longer = texts[i].clone();
                longer.push(c);
                texts.push(longer);
            }
        }
        start = end;
    }
    assert_eq!(texts.len(), 11111);
    for text in texts {
        let expected: Option<i8> = text.parse().ok();
        assert_eq!(literal(&text).to_immediate().ok(), expected, "{:?}", text);
    }
}
