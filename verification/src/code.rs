use vstd::prelude::*;
use vstd::string::StringExecFns;
use crate::mnemonic::{Mnemonic, MnemonicView};
use crate::text::{bits_text, pad_to, padded, push_bits};

verus! {

/// Bits 15 to 11 of an instruction word: the opcode, zero in the R and JR
/// formats.
pub open spec fn opcode_field(word: int) -> int {
    word / 2048 % 32
}

/// Bits 10 to 8: the destination register (the source register of a branch).
pub open spec fn dst_field(word: int) -> int {
    word / 256 % 8
}

/// Bits 7 to 5: the source register of the R format.
pub open spec fn src_field(word: int) -> int {
    word / 32 % 8
}

/// Bits 4 to 0: the function code of the R and JR formats.
pub open spec fn funct_field(word: int) -> int {
    word % 32
}

/// Bits 7 to 0: the immediate of the I format, the displacement of the B
/// format, in two's complement.
pub open spec fn low8_field(word: int) -> int {
    word % 256
}

/// Bits 10 to 0: the displacement of the J format, in two's complement.
pub open spec fn low11_field(word: int) -> int {
    word % 2048
}

/// The number that a field of eight bits holds in two's complement.
pub open spec fn signed8(field: int) -> int {
    if field >= 128 {
        field - 256
    } else {
        field
    }
}

/// The number that a field of eleven bits holds in two's complement.
pub open spec fn signed11(field: int) -> int {
    if field >= 1024 {
        field - 2048
    } else {
        field
    }
}

/// The R-format word: `[0:5][dst:3][src:3][funct:5]`.
pub open spec fn pack_r(funct: int, dst: int, src: int) -> int {
    dst * 256 + src * 32 + funct
}

/// The I-format word: `[opcode:5][dst:3][immediate:8]`.
pub open spec fn pack_i(opcode: int, dst: int, immediate: int) -> int {
    opcode * 2048 + dst * 256 + immediate % 256
}

/// The B-format word: `[opcode:5][src:3][displacement:8]`.
pub open spec fn pack_b(opcode: int, src: int, displacement: int) -> int {
    opcode * 2048 + src * 256 + displacement % 256
}

/// The J-format word: `[opcode:5][displacement:11]`.
pub open spec fn pack_j(opcode: int, displacement: int) -> int {
    opcode * 2048 + displacement % 2048
}

/// The JR-format word: `[0:5][dst:3][0:3][funct:5]`.
pub open spec fn pack_jr(funct: int, dst: int) -> int {
    dst * 256 + funct
}

/// Splitting an R-format word gives back the function code and the two
/// registers it was packed from, under an opcode of zero.
pub proof fn lemma_fields_of_pack_r(funct: int, dst: int, src: int)
    requires
        0 <= funct < 32,
        0 <= dst < 8,
        0 <= src < 8,
    ensures
        0 <= pack_r(funct, dst, src) < 0x10000,
        opcode_field(pack_r(funct, dst, src)) == 0,
        dst_field(pack_r(funct, dst, src)) == dst,
        src_field(pack_r(funct, dst, src)) == src,
        funct_field(pack_r(funct, dst, src)) == funct,
{
    let word = pack_r(funct, dst, src);
    assert(word / 32 == dst * 8 + src);
    assert(word / 256 == dst);
}

/// Splitting an I-format word gives back the opcode, the register and, read
/// in two's complement, the immediate it was packed from.
pub proof fn lemma_fields_of_pack_i(opcode: int, dst: int, immediate: int)
    requires
        0 <= opcode < 32,
        0 <= dst < 8,
        -128 <= immediate <= 127,
    ensures
        0 <= pack_i(opcode, dst, immediate) < 0x10000,
        opcode_field(pack_i(opcode, dst, immediate)) == opcode,
        dst_field(pack_i(opcode, dst, immediate)) == dst,
        low8_field(pack_i(opcode, dst, immediate)) == immediate % 256,
        signed8(low8_field(pack_i(opcode, dst, immediate))) == immediate,
{
    let word = pack_i(opcode, dst, immediate);
    let low = immediate % 256;
    assert(low == if immediate < 0 {
        immediate + 256
    } else {
        immediate
    });
    assert(word / 256 == opcode * 8 + dst);
    assert(word / 2048 == opcode);
}

/// Splitting a B-format word gives back the opcode, the register and, read
/// in two's complement, the displacement it was packed from.
pub proof fn lemma_fields_of_pack_b(opcode: int, src: int, displacement: int)
    requires
        0 <= opcode < 32,
        0 <= src < 8,
        -128 <= displacement <= 127,
    ensures
        0 <= pack_b(opcode, src, displacement) < 0x10000,
        opcode_field(pack_b(opcode, src, displacement)) == opcode,
        dst_field(pack_b(opcode, src, displacement)) == src,
        low8_field(pack_b(opcode, src, displacement)) == displacement % 256,
        signed8(low8_field(pack_b(opcode, src, displacement))) == displacement,
{
    let word = pack_b(opcode, src, displacement);
    let low = displacement % 256;
    assert(low == if displacement < 0 {
        displacement + 256
    } else {
        displacement
    });
    assert(word / 256 == opcode * 8 + src);
    assert(word / 2048 == opcode);
}

/// Splitting a J-format word gives back the opcode and, read in two's
/// complement, the displacement it was packed from.
pub proof fn lemma_fields_of_pack_j(opcode: int, displacement: int)
    requires
        0 <= opcode < 32,
        -1024 <= displacement <= 1023,
    ensures
        0 <= pack_j(opcode, displacement) < 0x10000,
        opcode_field(pack_j(opcode, displacement)) == opcode,
        low11_field(pack_j(opcode, displacement)) == displacement % 2048,
        signed11(low11_field(pack_j(opcode, displacement))) == displacement,
{
    let word = pack_j(opcode, displacement);
    let low = displacement % 2048;
    assert(low == if displacement < 0 {
        displacement + 2048
    } else {
        displacement
    });
    assert(word / 2048 == opcode);
}

/// Splitting a JR-format word gives back the function code and the register
/// it was packed from; its other two fields are zero.
pub proof fn lemma_fields_of_pack_jr(funct: int, dst: int)
    requires
        0 <= funct < 32,
        0 <= dst < 8,
    ensures
        0 <= pack_jr(funct, dst) < 0x10000,
        opcode_field(pack_jr(funct, dst)) == 0,
        dst_field(pack_jr(funct, dst)) == dst,
        src_field(pack_jr(funct, dst)) == 0,
        funct_field(pack_jr(funct, dst)) == funct,
{
    let word = pack_jr(funct, dst);
    assert(word / 32 == dst * 8);
    assert(word / 256 == dst);
}

/// An encoded instruction: the 16-bit word, and the instruction that it was
/// made from.
#[derive(Debug, PartialEq, Eq)]
pub struct Code {
    code: u16,
    instruction: Mnemonic,
}

/// What a [`Code`] stands for in contracts.
pub struct CodeView {
    pub word: int,
    pub instruction: MnemonicView,
}

impl View for Code {
    type V = CodeView;

    closed spec fn view(&self) -> CodeView {
        CodeView { word: self.code as int, instruction: self.instruction@ }
    }
}

impl Clone for Code {
    fn clone(&self) -> (r: Self)
        ensures
            r@ == self@,
    {
        Code { code: self.code, instruction: self.instruction.clone() }
    }
}

/// The views of a sequence of encoded instructions.
pub open spec fn code_views(codes: Seq<Code>) -> Seq<CodeView> {
    codes.map_values(|c: Code| c@)
}

/// The word with its fields set apart by `_`, as the format of `instruction`
/// lays them out.
pub open spec fn grouped_text(word: int, instruction: MnemonicView) -> Seq<char> {
    match instruction {
        MnemonicView::R(_) | MnemonicView::JR(_) => bits_text(opcode_field(word), 5) + "_"@
            + bits_text(dst_field(word), 3) + "_"@ + bits_text(src_field(word), 3) + "_"@
            + bits_text(funct_field(word), 5),
        MnemonicView::I(_) | MnemonicView::B(_) => bits_text(opcode_field(word), 5) + "_"@
            + bits_text(dst_field(word), 3) + "_"@ + bits_text(low8_field(word), 8),
        MnemonicView::J(_) => bits_text(opcode_field(word), 5) + "_"@ + bits_text(
            low11_field(word),
            11,
        ),
    }
}

/// One line of output for `code`: the word in binary, grouped by fields if
/// `underscore` is set, filled with blanks to a fixed width; then a blank;
/// then, if `mnemonic` is set, the instruction as a comment.
pub open spec fn line_text(code: CodeView, underscore: bool, mnemonic: bool) -> Seq<char> {
    let word = if underscore {
        padded(grouped_text(code.word, code.instruction), 20)
    } else {
        padded(bits_text(code.word, 16), 16)
    };
    let comment = if mnemonic {
        "// "@ + code.instruction.text()
    } else {
        Seq::empty()
    };
    word + " "@ + comment
}

impl Code {
    /// Pairs a word with the instruction that it encodes.
    pub fn new(code: u16, instruction: Mnemonic) -> (c: Self)
        ensures
            c@ == (CodeView { word: code as int, instruction: instruction@ }),
    {
        Code { code: code, instruction: instruction }
    }

    /// The 16-bit word.
    pub fn get_code(&self) -> (word: u16)
        ensures
            word == self@.word,
    {
        self.code
    }

    /// The instruction that the word was made from.
    pub fn get_instruction(&self) -> (instruction: &Mnemonic)
        ensures
            instruction@ == self@.instruction,
    {
        &self.instruction
    }

    /// One line of output: the word in binary, its fields set apart by `_`
    /// if `underscore` is set, and behind it, if `mnemonic` is set, the
    /// instruction as a comment.
    pub fn get_line(&self, underscore: bool, mnemonic: bool) -> (line: String)
        ensures
            line@ == line_text(self@, underscore, mnemonic),
    {
        let mut line = String::new();
        if underscore {
            match &self.instruction {
                Mnemonic::R(_) | Mnemonic::JR(_) => {
                    let (c, _, _) = self.as_i_instr();
                    let (d, s, f) = self.as_r_instr();
                    push_bits(&mut line, c, 5);
                    line.append("_");
                    push_bits(&mut line, d, 3);
                    line.append("_");
                    push_bits(&mut line, s, 3);
                    line.append("_");
                    push_bits(&mut line, f, 5);
                },
                Mnemonic::I(_) | Mnemonic::B(_) => {
                    let (c, d, x) = self.as_i_instr();
                    push_bits(&mut line, c, 5);
                    line.append("_");
                    push_bits(&mut line, d, 3);
                    line.append("_");
                    push_bits(&mut line, x, 8);
                },
                Mnemonic::J(_) => {
                    let (c, x) = self.as_j_instr();
                    push_bits(&mut line, c, 5);
                    line.append("_");
                    push_bits(&mut line, x, 11);
                },
            }
            assert(line@ =~= grouped_text(self@.word, self@.instruction));
            pad_to(&mut line, 20);
        } else {
            push_bits(&mut line, self.code, 16);
            assert(line@ =~= bits_text(self@.word, 16));
            pad_to(&mut line, 16);
        }
        let ghost word = line@;
        line.append(" ");
        if mnemonic {
            line.append("// ");
            let text = self.instruction.to_text();
            line.append(text.as_str());
            assert(line@ =~= word + " "@ + ("// "@ + self@.instruction.text()));
        } else {
            assert(line@ =~= word + " "@ + Seq::<char>::empty());
        }
        line
    }

    /// The fields of the R format: destination, source, function code.
    fn as_r_instr(&self) -> (fields: (u16, u16, u16))
        ensures
            fields.0 == dst_field(self@.word),
            fields.1 == src_field(self@.word),
            fields.2 == funct_field(self@.word),
    {
        let code: u16 = self.code;
        let d: u16 = (0b00000_111_000_00000 & code) >> 8;
        let s: u16 = (0b00000_000_111_00000 & code) >> 5;
        let f: u16 = 0b00000_000_000_11111 & code;
        assert((0b00000_111_000_00000u16 & code) >> 8 == code / 256 % 8) by (bit_vector);
        assert((0b00000_000_111_00000u16 & code) >> 5 == code / 32 % 8) by (bit_vector);
        assert(0b00000_000_000_11111u16 & code == code % 32) by (bit_vector);
        (d, s, f)
    }

    /// The fields of the I format: opcode, destination, immediate.
    fn as_i_instr(&self) -> (fields: (u16, u16, u16))
        ensures
            fields.0 == opcode_field(self@.word),
            fields.1 == dst_field(self@.word),
            fields.2 == low8_field(self@.word),
    {
        let code: u16 = self.code;
        let c: u16 = (0b11111_000_00000000 & code) >> 11;
        let d: u16 = (0b00000_111_00000000 & code) >> 8;
        let x: u16 = 0b00000_000_11111111 & code;
        assert((0b11111_000_00000000u16 & code) >> 11 == code / 2048 % 32) by (bit_vector);
        assert((0b00000_111_00000000u16 & code) >> 8 == code / 256 % 8) by (bit_vector);
        assert(0b00000_000_11111111u16 & code == code % 256) by (bit_vector);
        (c, d, x)
    }

    /// The fields of the J format: opcode, displacement.
    fn as_j_instr(&self) -> (fields: (u16, u16))
        ensures
            fields.0 == opcode_field(self@.word),
            fields.1 == low11_field(self@.word),
    {
        let code: u16 = self.code;
        let c: u16 = (0b11111_00000000000 & code) >> 11;
        let x: u16 = 0b00000_11111111111 & code;
        assert((0b11111_00000000000u16 & code) >> 11 == code / 2048 % 32) by (bit_vector);
        assert(0b00000_11111111111u16 & code == code % 2048) by (bit_vector);
        (c, x)
    }
}

/// The lines of output for a program, one for each encoded instruction, in
/// order.
pub fn emit(codes: &Vec<Code>, underscore: bool, mnemonic: bool) -> (lines: Vec<String>)
    ensures
        lines.len() == codes.len(),
        forall|i: int|
            0 <= i < codes.len() ==> (#[trigger] lines[i])@ == line_text(
                codes[i]@,
                underscore,
                mnemonic,
            ),
{
    let mut lines: Vec<String> = Vec::with_capacity(codes.len());
    let mut i: usize = 0;
    while i < codes.len()
        invariant
            i <= codes.len(),
            lines.len() == i,
            forall|j: int|
                0 <= j < i ==> (#[trigger] lines[j])@ == line_text(codes[j]@, underscore, mnemonic),
        decreases codes.len() - i,
    {
        lines.push(codes[i].get_line(underscore, mnemonic));
        i = i + 1;
    }
    lines
}

} // verus!
