use pasm::ast::Register;
use pasm::mnemonic::{FunctJR, FunctR, Item, OpcodeB, OpcodeI, OpcodeJ};
use pasm::parser::{parse_file, parse_item, parse_register};

#[test]
fn register() {
    assert_eq!(Register::R0, parse_register("r0").unwrap());
    assert_eq!(Register::R1, parse_register("r1").unwrap());
    assert_eq!(Register::R2, parse_register("r2").unwrap());
    assert_eq!(Register::R3, parse_register("r3").unwrap());
    assert_eq!(Register::R4, parse_register("r4").unwrap());
    assert_eq!(Register::R5, parse_register("r5").unwrap());
    assert_eq!(Register::R6, parse_register("r6").unwrap());
    assert_eq!(Register::R7, parse_register("r7").unwrap());
}

#[test]
fn instruction_r() {
    assert_eq!(
        Item::instr_r(FunctR::NOP, Register::R0, Register::R0),
        parse_item("NOP").unwrap()
    );

    assert_eq!(
        Item::instr_r(FunctR::MV, Register::R0, Register::R1),
        parse_item("MV r0, r1").unwrap()
    );

    assert_eq!(
        Item::instr_r(FunctR::AND, Register::R0, Register::R1),
        parse_item("AND r0, r1").unwrap()
    );

    assert_eq!(
        Item::instr_r(FunctR::OR, Register::R0, Register::R1),
        parse_item("OR r0, r1").unwrap()
    );

    assert_eq!(
        Item::instr_r(FunctR::SL, Register::R1, Register::R0),
        parse_item("SL r1").unwrap()
    );

    assert_eq!(
        Item::instr_r(FunctR::SR, Register::R1, Register::R0),
        parse_item("SR r1").unwrap()
    );

    assert_eq!(
        Item::instr_r(FunctR::ADD, Register::R0, Register::R1),
        parse_item("ADD r0, r1").unwrap()
    );

    assert_eq!(
        Item::instr_r(FunctR::SUB, Register::R0, Register::R1),
        parse_item("SUB r0, r1").unwrap()
    );

    assert_eq!(
        Item::instr_r(FunctR::ST, Register::R1, Register::R0),
        parse_item("ST r0, (r1)").unwrap()
    );

    assert_eq!(
        Item::instr_r(FunctR::LD, Register::R0, Register::R1),
        parse_item("LD r0, (r1)").unwrap()
    );
}

#[test]
fn instruction_i() {
    assert_eq!(
        Item::instr_i(OpcodeI::LDI, Register::R0, -127),
        parse_item("LDI r0, #-127").unwrap()
    );
    assert_eq!(
        Item::instr_i(OpcodeI::LDI, Register::R0, -1),
        parse_item("LDI r0, #-1").unwrap()
    );
    assert_eq!(
        Item::instr_i(OpcodeI::LDI, Register::R0, 0),
        parse_item("LDI r0, #0").unwrap()
    );
    assert_eq!(
        Item::instr_i(OpcodeI::LDI, Register::R0, 1),
        parse_item("LDI r0, #1").unwrap()
    );
    assert_eq!(
        Item::instr_i(OpcodeI::LDI, Register::R0, 127),
        parse_item("LDI r0, #127").unwrap()
    );

    assert_eq!(
        Item::instr_i(OpcodeI::LDI, Register::R0, 0),
        parse_item("LDI r0, #0").unwrap()
    );
    assert_eq!(
        Item::instr_i(OpcodeI::LDIU, Register::R0, 0),
        parse_item("LDIU r0, #0").unwrap()
    );
    assert_eq!(
        Item::instr_i(OpcodeI::ADDI, Register::R0, 0),
        parse_item("ADDI r0, #0").unwrap()
    );
    assert_eq!(
        Item::instr_i(OpcodeI::ADDIU, Register::R0, 0),
        parse_item("ADDIU r0, #0").unwrap()
    );
    assert_eq!(
        Item::instr_i(OpcodeI::LDHI, Register::R0, 0),
        parse_item("LDHI r0, #0").unwrap()
    );
}

#[test]
fn instruction_j() {
    assert_eq!(
        Item::instr_j(OpcodeJ::JMP, "label".into()),
        parse_item("JMP label").unwrap()
    );
}

#[test]
fn instruction_b() {
    assert_eq!(
        Item::instr_b(OpcodeB::BEZ, Register::R0, "label".into()),
        parse_item("BEZ r0, label").unwrap()
    );

    assert_eq!(
        Item::instr_b(OpcodeB::BNZ, Register::R0, "label".into()),
        parse_item("BNZ r0, label").unwrap()
    );

    assert_eq!(
        Item::instr_b(OpcodeB::BPL, Register::R0, "label".into()),
        parse_item("BPL r0, label").unwrap()
    );

    assert_eq!(
        Item::instr_b(OpcodeB::BMI, Register::R0, "label".into()),
        parse_item("BMI r0, label").unwrap()
    );
}

#[test]
fn instruction_jr() {
    assert_eq!(
        Item::instr_jr(FunctJR::JR, Register::R0),
        parse_item("JR r0").unwrap()
    );
}

#[test]
fn label() {
    assert_eq!(Item::Label("label".to_string()), parse_item(":label").unwrap());
    assert_eq!(
        Item::Label("label0".to_string()),
        parse_item(":label0").unwrap()
    );
    assert_eq!(Item::Label("end".to_string()), parse_item(":end").unwrap());
}

#[test]
fn file() {
    let input1 = r"
:start
LD r1, (r0)
BEZ r0, jump1
:jump1
LDI r1, #1
:jump2 ST r1, (r0)
ADD r0, r1
ADDI r0, #1
JMP end
:end
";
    let expected1 = vec![
        Item::label("start".to_string()),
        Item::instr_r(FunctR::LD, Register::R1, Register::R0),
        Item::instr_b(OpcodeB::BEZ, Register::R0, "jump1".into()),
        Item::label("jump1".to_string()),
        Item::instr_i(OpcodeI::LDI, Register::R1, 1.into()),
        Item::label("jump2".to_string()),
        Item::instr_r(FunctR::ST, Register::R0, Register::R1),
        Item::instr_r(FunctR::ADD, Register::R0, Register::R1),
        Item::instr_i(OpcodeI::ADDI, Register::R0, 1.into()),
        Item::instr_j(OpcodeJ::JMP, "end".into()),
        Item::label("end".to_string()),
    ];
    assert_eq!(expected1, parse_file(input1).unwrap());
}
