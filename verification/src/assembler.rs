use vstd::prelude::*;
use crate::code::{
    code_views, dst_field, funct_field, lemma_fields_of_pack_b, lemma_fields_of_pack_i,
    lemma_fields_of_pack_j, lemma_fields_of_pack_jr, lemma_fields_of_pack_r, low11_field,
    low8_field, opcode_field, pack_b, pack_i, pack_j, pack_jr, pack_r, signed11, signed8,
    src_field, Code, CodeView,
};
use crate::error::{AsmError, AsmErrorView};
use crate::lexer::{lemma_layout, CharClass};
use crate::mnemonic::{item_views, mnemonic_views, Item, ItemView, Mnemonic, MnemonicView};
use crate::parser::{parse_file, parsed_file};
use crate::symbol::SymbolTable;

verus! {

/// The instructions of a program, in order, without the labels between them.
/// The place of an instruction in this sequence is its address.
pub open spec fn instructions_of(items: Seq<ItemView>) -> Seq<MnemonicView>
    decreases items.len(),
{
    if items.len() == 0 {
        Seq::empty()
    } else {
        match items.last() {
            ItemView::Mnemonic(m) => instructions_of(items.drop_last()).push(m),
            ItemView::Label(_) => instructions_of(items.drop_last()),
        }
    }
}

/// The address that an instruction at place `k` of `items` has, and that a
/// label at place `k` stands for: the number of instructions before it.
pub open spec fn address_of(items: Seq<ItemView>, k: int) -> nat {
    instructions_of(items.take(k)).len()
}

/// The symbol table of a program: each label with the number of instructions
/// that stand before its declaration. Where a name is declared more than
/// once, the last declaration counts.
pub open spec fn symbols_of(items: Seq<ItemView>) -> Map<Seq<char>, nat>
    decreases items.len(),
{
    if items.len() == 0 {
        Map::empty()
    } else {
        match items.last() {
            ItemView::Label(name) => symbols_of(items.drop_last()).insert(
                name,
                instructions_of(items.drop_last()).len(),
            ),
            ItemView::Mnemonic(_) => symbols_of(items.drop_last()),
        }
    }
}

/// The distance from the instruction at `address` to `label`, for a
/// displacement field that holds `-half..half`.
pub open spec fn displacement_of(
    table: Map<Seq<char>, nat>,
    label: Seq<char>,
    address: nat,
    half: int,
) -> Result<int, AsmErrorView> {
    if !table.contains_key(label) {
        Err(AsmErrorView::UndefinedLabel(label))
    } else if -half <= table[label] - address < half {
        Ok(table[label] - address)
    } else {
        Err(AsmErrorView::DisplacementOverflow(label))
    }
}

/// The word that encodes `m` when it stands at `address`, or the error that
/// the label it names gives.
pub open spec fn word_of(
    m: MnemonicView,
    table: Map<Seq<char>, nat>,
    address: nat,
) -> Result<int, AsmErrorView> {
    match m {
        MnemonicView::R(i) => Ok(
            pack_r(i.funct.spec_id() as int, i.dst.spec_id() as int, i.src.spec_id() as int),
        ),
        MnemonicView::I(i) => Ok(
            pack_i(i.opcode.spec_id() as int, i.dst.spec_id() as int, i.immediate as int),
        ),
        MnemonicView::B(i) => match displacement_of(table, i.label, address, 128) {
            Ok(d) => Ok(pack_b(i.opcode.spec_id() as int, i.src.spec_id() as int, d)),
            Err(e) => Err(e),
        },
        MnemonicView::J(i) => match displacement_of(table, i.label, address, 1024) {
            Ok(d) => Ok(pack_j(i.opcode.spec_id() as int, d)),
            Err(e) => Err(e),
        },
        MnemonicView::JR(i) => Ok(pack_jr(i.funct.spec_id() as int, i.dst.spec_id() as int)),
    }
}

/// The encoded instruction for `m` at `address`: its word, paired with `m`.
pub open spec fn encode_spec(
    m: MnemonicView,
    table: Map<Seq<char>, nat>,
    address: nat,
) -> Result<CodeView, AsmErrorView> {
    match word_of(m, table, address) {
        Ok(word) => Ok(CodeView { word, instruction: m }),
        Err(e) => Err(e),
    }
}

/// The first `n` instructions of `instrs`, each encoded at its place, or the
/// error of the first among them that cannot be encoded.
pub open spec fn encode_first(
    instrs: Seq<MnemonicView>,
    table: Map<Seq<char>, nat>,
    n: nat,
) -> Result<Seq<CodeView>, AsmErrorView>
    decreases n,
{
    if n == 0 {
        Ok(Seq::empty())
    } else {
        match encode_first(instrs, table, (n - 1) as nat) {
            Err(e) => Err(e),
            Ok(codes) => match encode_spec(instrs[n - 1], table, (n - 1) as nat) {
                Ok(code) => Ok(codes.push(code)),
                Err(e) => Err(e),
            },
        }
    }
}

/// The encoded program: every instruction encoded at its place, or the error
/// of the first that cannot be encoded.
pub open spec fn assemble_spec(
    instrs: Seq<MnemonicView>,
    table: Map<Seq<char>, nat>,
) -> Result<Seq<CodeView>, AsmErrorView> {
    encode_first(instrs, table, instrs.len())
}

/// The encoded program of a source text.
pub open spec fn program_of(source: Seq<char>) -> Result<Seq<CodeView>, AsmErrorView> {
    match parsed_file(source) {
        Ok(items) => assemble_spec(instructions_of(items), symbols_of(items)),
        Err(e) => Err(e),
    }
}

/// An error among the first `n` instructions is the error of every longer
/// run.
pub proof fn lemma_first_error_stays(
    instrs: Seq<MnemonicView>,
    table: Map<Seq<char>, nat>,
    n: nat,
    m: nat,
)
    requires
        n <= m,
        encode_first(instrs, table, n) is Err,
    ensures
        encode_first(instrs, table, m) == encode_first(instrs, table, n),
    decreases m,
{
    if n < m {
        lemma_first_error_stays(instrs, table, n, (m - 1) as nat);
    }
}

/// The address of the item behind an instruction is one more than the
/// instruction's own; the address of the item behind a label is the label's.
pub proof fn lemma_address_step(items: Seq<ItemView>, k: int)
    requires
        0 <= k < items.len(),
    ensures
        address_of(items, k + 1) == address_of(items, k) + if items[k] is Mnemonic {
            1nat
        } else {
            0nat
        },
{
    assert(items.take(k + 1).drop_last() =~= items.take(k));
    assert(items.take(k + 1).last() == items[k]);
}

/// The address of an instruction is its place among the instructions of the
/// program.
pub proof fn lemma_instruction_address(items: Seq<ItemView>, k: int)
    requires
        0 <= k < items.len(),
        items[k] is Mnemonic,
    ensures
        address_of(items, k) < instructions_of(items).len(),
        instructions_of(items)[address_of(items, k) as int] == items[k]->Mnemonic_0,
    decreases items.len(),
{
    let init = items.drop_last();
    if k == items.len() - 1 {
        assert(items.take(k) =~= init);
    } else {
        lemma_instruction_address(init, k);
        assert(init.take(k) =~= items.take(k));
    }
}

/// In a program without labels the instruction at place `n`, counted from 0,
/// has address `n`: the addresses count instructions and nothing else.
pub proof fn lemma_label_free_addresses(items: Seq<ItemView>, n: int)
    requires
        forall|i: int| 0 <= i < items.len() ==> #[trigger] items[i] is Mnemonic,
        0 <= n < items.len(),
    ensures
        address_of(items, n) == n,
        instructions_of(items)[n] == items[n]->Mnemonic_0,
    decreases n,
{
    if n > 0 {
        lemma_label_free_addresses(items, n - 1);
        lemma_address_step(items, n - 1);
    } else {
        assert(items.take(0) =~= Seq::<ItemView>::empty());
    }
    lemma_instruction_address(items, n);
}

/// A label stands for the address of the item behind its declaration, where
/// no later declaration has the same name.
pub proof fn lemma_label_address(items: Seq<ItemView>, i: int)
    requires
        0 <= i < items.len(),
        items[i] is Label,
        forall|j: int| i < j < items.len() ==> #[trigger] items[j] != items[i],
    ensures
        symbols_of(items).contains_key(items[i]->Label_0),
        symbols_of(items)[items[i]->Label_0] == address_of(items, i),
    decreases items.len(),
{
    let init = items.drop_last();
    if i == items.len() - 1 {
        assert(items.take(i) =~= init);
    } else {
        assert forall|j: int| i < j < init.len() implies #[trigger] init[j] != init[i] by {
            assert(items[j] != items[i]);
        }
        lemma_label_address(init, i);
        assert(init.take(i) =~= items.take(i));
        assert(items.last() != items[i]);
    }
}

/// The symbol table holds the names that the program declares, and no
/// others.
pub proof fn lemma_symbols_domain(items: Seq<ItemView>, name: Seq<char>)
    ensures
        symbols_of(items).contains_key(name) <==> exists|i: int|
            0 <= i < items.len() && #[trigger] items[i] == ItemView::Label(name),
    decreases items.len(),
{
    if items.len() > 0 {
        let init = items.drop_last();
        lemma_symbols_domain(init, name);
        if symbols_of(items).contains_key(name) {
            if items.last() == ItemView::Label(name) {
                assert(items[items.len() - 1] == ItemView::Label(name));
            } else {
                let i = choose|i: int|
                    0 <= i < init.len() && #[trigger] init[i] == ItemView::Label(name);
                assert(items[i] == ItemView::Label(name));
            }
        }
        if exists|i: int| 0 <= i < items.len() && #[trigger] items[i] == ItemView::Label(name) {
            let i = choose|i: int|
                0 <= i < items.len() && #[trigger] items[i] == ItemView::Label(name);
            if i < init.len() {
                assert(init[i] == ItemView::Label(name));
            }
        }
    }
}

/// A label declared just before an instruction stands for the address of
/// that instruction.
pub proof fn lemma_label_before_instruction(items: Seq<ItemView>, i: int)
    requires
        0 <= i < items.len() - 1,
        items[i] is Label,
        items[i + 1] is Mnemonic,
        forall|j: int| i < j < items.len() ==> #[trigger] items[j] != items[i],
    ensures
        symbols_of(items).contains_key(items[i]->Label_0),
        symbols_of(items)[items[i]->Label_0] == address_of(items, i + 1),
        instructions_of(items)[symbols_of(items)[items[i]->Label_0] as int] == items[i
            + 1]->Mnemonic_0,
{
    lemma_label_address(items, i);
    lemma_address_step(items, i);
    lemma_instruction_address(items, i + 1);
}

/// A label declared behind the last instruction stands for the number of
/// instructions in the program.
pub proof fn lemma_label_at_end(items: Seq<ItemView>)
    requires
        items.len() > 0,
        items.last() is Label,
    ensures
        symbols_of(items).contains_key(items.last()->Label_0),
        symbols_of(items)[items.last()->Label_0] == instructions_of(items).len(),
{
}

/// The fields of an encoded word hold what the instruction was built from:
/// the codes of its operation and registers, and, read in two's complement,
/// its immediate or the distance to its label. An instruction that names no
/// label can always be encoded.
pub proof fn lemma_encode_round_trip(m: MnemonicView, table: Map<Seq<char>, nat>, address: nat)
    ensures
        m is R || m is I || m is JR ==> word_of(m, table, address) is Ok,
        word_of(m, table, address) matches Ok(word) ==> {
            &&& 0 <= word < 0x10000
            &&& match m {
                MnemonicView::R(i) => {
                    &&& opcode_field(word) == 0
                    &&& dst_field(word) == i.dst.spec_id()
                    &&& src_field(word) == i.src.spec_id()
                    &&& funct_field(word) == i.funct.spec_id()
                },
                MnemonicView::I(i) => {
                    &&& opcode_field(word) == i.opcode.spec_id()
                    &&& dst_field(word) == i.dst.spec_id()
                    &&& signed8(low8_field(word)) == i.immediate
                },
                MnemonicView::B(i) => {
                    &&& opcode_field(word) == i.opcode.spec_id()
                    &&& dst_field(word) == i.src.spec_id()
                    &&& table.contains_key(i.label)
                    &&& signed8(low8_field(word)) == table[i.label] - address
                },
                MnemonicView::J(i) => {
                    &&& opcode_field(word) == i.opcode.spec_id()
                    &&& table.contains_key(i.label)
                    &&& signed11(low11_field(word)) == table[i.label] - address
                },
                MnemonicView::JR(i) => {
                    &&& opcode_field(word) == 0
                    &&& dst_field(word) == i.dst.spec_id()
                    &&& src_field(word) == 0
                    &&& funct_field(word) == i.funct.spec_id()
                },
            }
        },
{
    match m {
        MnemonicView::R(i) => {
            lemma_fields_of_pack_r(
                i.funct.spec_id() as int,
                i.dst.spec_id() as int,
                i.src.spec_id() as int,
            );
        },
        MnemonicView::I(i) => {
            lemma_fields_of_pack_i(
                i.opcode.spec_id() as int,
                i.dst.spec_id() as int,
                i.immediate as int,
            );
        },
        MnemonicView::B(i) => {
            if displacement_of(table, i.label, address, 128) is Ok {
                lemma_fields_of_pack_b(
                    i.opcode.spec_id() as int,
                    i.src.spec_id() as int,
                    table[i.label] - address,
                );
            }
        },
        MnemonicView::J(i) => {
            if displacement_of(table, i.label, address, 1024) is Ok {
                lemma_fields_of_pack_j(i.opcode.spec_id() as int, table[i.label] - address);
            }
        },
        MnemonicView::JR(i) => {
            lemma_fields_of_pack_jr(i.funct.spec_id() as int, i.dst.spec_id() as int);
        },
    }
}

/// The displacement in the word of a branch or a jump, read in two's
/// complement, is negative where the label lies before the instruction, zero
/// where the label is the instruction's own address, and positive where the
/// label lies behind it.
pub proof fn lemma_displacement_sign(
    m: MnemonicView,
    label: Seq<char>,
    table: Map<Seq<char>, nat>,
    address: nat,
)
    requires
        match m {
            MnemonicView::B(i) => i.label == label,
            MnemonicView::J(i) => i.label == label,
            _ => false,
        },
        word_of(m, table, address) is Ok,
    ensures
        ({
            let word = word_of(m, table, address)->Ok_0;
            let displacement = if m is B {
                signed8(low8_field(word))
            } else {
                signed11(low11_field(word))
            };
            &&& table[label] < address ==> displacement < 0
            &&& table[label] == address ==> displacement == 0
            &&& table[label] > address ==> displacement > 0
        }),
{
    lemma_encode_round_trip(m, table, address);
}

/// The encoded program has one word for each instruction, in order: the
/// word of the instruction at that address.
pub proof fn lemma_assemble_all(instrs: Seq<MnemonicView>, table: Map<Seq<char>, nat>, n: nat)
    requires
        n <= instrs.len(),
        encode_first(instrs, table, n) is Ok,
    ensures
        encode_first(instrs, table, n)->Ok_0.len() == n,
        forall|i: int|
            0 <= i < n ==> encode_spec(instrs[i], table, i as nat) == Ok::<
                CodeView,
                AsmErrorView,
            >(#[trigger] encode_first(instrs, table, n)->Ok_0[i]),
    decreases n,
{
    if n > 0 {
        lemma_assemble_all(instrs, table, (n - 1) as nat);
    }
}

/// Where the program cannot be encoded, the error is that of the first
/// instruction, in order, that cannot be encoded.
pub proof fn lemma_assemble_first_error(
    instrs: Seq<MnemonicView>,
    table: Map<Seq<char>, nat>,
    n: nat,
) -> (i: int)
    requires
        n <= instrs.len(),
        encode_first(instrs, table, n) is Err,
    ensures
        0 <= i < n,
        encode_spec(instrs[i], table, i as nat) == Err::<CodeView, AsmErrorView>(
            encode_first(instrs, table, n)->Err_0,
        ),
        forall|j: int| 0 <= j < i ==> (#[trigger] encode_spec(instrs[j], table, j as nat)) is Ok,
    decreases n,
{
    if encode_first(instrs, table, (n - 1) as nat) is Err {
        lemma_assemble_first_error(instrs, table, (n - 1) as nat)
    } else {
        lemma_assemble_all(instrs, table, (n - 1) as nat);
        let codes = encode_first(instrs, table, (n - 1) as nat)->Ok_0;
        assert forall|j: int| 0 <= j < n - 1 implies (#[trigger] encode_spec(
            instrs[j],
            table,
            j as nat,
        )) is Ok by {
            assert(encode_spec(instrs[j], table, j as nat) == Ok::<CodeView, AsmErrorView>(
                codes[j],
            ));
        }
        n - 1
    }
}

/// The encoded program of a source text does not depend on which white
/// space stands between its tokens, nor on how much of it: the addresses
/// count instructions, not lines or columns.
pub proof fn lemma_program_layout(a: Seq<char>, w1: char, w2: char, b: Seq<char>)
    requires
        CharClass::Space.holds(w1),
        CharClass::Space.holds(w2),
    ensures
        program_of(a + seq![w1] + b) == program_of(a + seq![w2] + b),
        program_of(a + seq![w1] + seq![w2] + b) == program_of(a + seq![w1] + b),
        program_of(seq![w1] + b) == program_of(b),
        program_of(a + seq![w1]) == program_of(a),
{
    lemma_layout(a, w1, w2, b);
}

/// Pass one: parts the instructions from the labels, and records for each
/// label the address of the instruction that follows it.
pub fn convert(input: Vec<Item>) -> (r: (Vec<Mnemonic>, SymbolTable))
    ensures
        mnemonic_views(r.0@) == instructions_of(item_views(input@)),
        r.1@ == symbols_of(item_views(input@)),
{
    let mut mnemonics: Vec<Mnemonic> = Vec::new();
    let mut table = SymbolTable::new();
    let ghost items = item_views(input@);
    for line in it: input.into_iter()
        invariant
            items == item_views(it.seq()),
            mnemonic_views(mnemonics@) == instructions_of(items.take(it.index())),
            table@ == symbols_of(items.take(it.index())),
    {
        let ghost seen = items.take(it.index());
        let ghost next = items.take(it.index() + 1);
        assert(next.drop_last() =~= seen);
        assert(next.last() == line@);
        match line {
            Item::Label(label) => {
                let current_index: usize = mnemonics.len();
                table.insert(label, current_index);
            },
            Item::Mnemonic(m) => {
                assert(mnemonic_views(mnemonics@.push(m)) =~= mnemonic_views(mnemonics@).push(
                    m@,
                ));
                mnemonics.push(m);
            },
        }
    }
    assert(items.take(items.len() as int) =~= items);
    (mnemonics, table)
}

/// The two's complement of `v` in a field of eight bits.
fn low8(v: i16) -> (field: u16)
    requires
        -128 <= v < 128,
    ensures
        field == v % 256,
        field < 256,
{
    if v >= 0 {
        v as u16
    } else {
        (256 + v) as u16
    }
}

/// The two's complement of `v` in a field of eleven bits.
fn low11(v: i16) -> (field: u16)
    requires
        -1024 <= v < 1024,
    ensures
        field == v % 2048,
        field < 2048,
{
    if v >= 0 {
        v as u16
    } else {
        (2048 + v) as u16
    }
}

/// Looks `label` up and measures the distance to it from `current_addr`.
fn displacement(
    table: &SymbolTable,
    label: &String,
    current_addr: usize,
    half: i16,
) -> (r: Result<i16, AsmError>)
    requires
        0 < half <= 1024,
    ensures
        match displacement_of(table@, label@, current_addr as nat, half as int) {
            Ok(expected) => r matches Ok(d) && d as int == expected,
            Err(error) => r matches Err(e) && e@ == error,
        },
{
    let dst_addr: usize = match table.get(label.as_str()) {
        Some(a) => a,
        None => {
            return Err(AsmError::UndefinedLabel(label.clone()));
        },
    };
    if dst_addr >= current_addr {
        let forward: usize = dst_addr - current_addr;
        if forward < half as usize {
            Ok(forward as i16)
        } else {
            Err(AsmError::DisplacementOverflow(label.clone()))
        }
    } else {
        let backward: usize = current_addr - dst_addr;
        if backward <= half as usize {
            Ok(-(backward as i16))
        } else {
            Err(AsmError::DisplacementOverflow(label.clone()))
        }
    }
}

/// Pass two, for one instruction: packs the fields of `line`, which stands at
/// `current_addr`, into its word. A branch or jump is given the distance to
/// its label, which `table` must hold and the field must have room for.
pub fn encode(
    line: Mnemonic,
    table: &SymbolTable,
    current_addr: usize,
) -> (r: Result<Code, AsmError>)
    ensures
        match encode_spec(line@, table@, current_addr as nat) {
            Ok(expected) => r matches Ok(code) && code@ == expected,
            Err(error) => r matches Err(e) && e@ == error,
        },
{
    let code: u16 = match &line {
        Mnemonic::R(instr) => {
            let f: u16 = instr.funct.id();
            let d: u16 = instr.dst.id();
            let s: u16 = instr.src.id();
            assert((d << 8) | (s << 5) | f == d * 256 + s * 32 + f) by (bit_vector)
                requires
                    d < 8,
                    s < 8,
                    f < 32,
            ;
            (d << 8) | (s << 5) | f
        },
        Mnemonic::I(instr) => {
            let c: u16 = instr.opcode.id();
            let d: u16 = instr.dst.id();
            let x: u16 = low8(instr.immediate as i16);
            assert((c << 11) | (d << 8) | x == c * 2048 + d * 256 + x) by (bit_vector)
                requires
                    c < 32,
                    d < 8,
                    x < 256,
            ;
            (c << 11) | (d << 8) | x
        },
        Mnemonic::B(instr) => {
            let c: u16 = instr.opcode.id();
            let s: u16 = instr.src.id();
            let x: u16 = match displacement(table, &instr.label, current_addr, 128) {
                Ok(addr) => low8(addr),
                Err(e) => {
                    return Err(e);
                },
            };
            assert((c << 11) | (s << 8) | x == c * 2048 + s * 256 + x) by (bit_vector)
                requires
                    c < 32,
                    s < 8,
                    x < 256,
            ;
            (c << 11) | (s << 8) | x
        },
        Mnemonic::J(instr) => {
            let c: u16 = instr.opcode.id();
            let x: u16 = match displacement(table, &instr.label, current_addr, 1024) {
                Ok(addr) => low11(addr),
                Err(e) => {
                    return Err(e);
                },
            };
            assert((c << 11) | x == c * 2048 + x) by (bit_vector)
                requires
                    c < 32,
                    x < 2048,
            ;
            (c << 11) | x
        },
        Mnemonic::JR(instr) => {
            let f: u16 = instr.funct.id();
            let d: u16 = instr.dst.id();
            assert((d << 8) | f == d * 256 + f) by (bit_vector)
                requires
                    d < 8,
                    f < 32,
            ;
            (d << 8) | f
        },
    };
    Ok(Code::new(code, line))
}

/// Pass two: encodes each instruction at its address, which is its place in
/// `input`. The first instruction that cannot be encoded ends the run with
/// its error.
pub fn assemble(input: Vec<Mnemonic>, table: &SymbolTable) -> (r: Result<Vec<Code>, AsmError>)
    ensures
        match assemble_spec(mnemonic_views(input@), table@) {
            Ok(expected) => r matches Ok(codes) && code_views(codes@) == expected,
            Err(error) => r matches Err(e) && e@ == error,
        },
{
    let mut result: Vec<Code> = Vec::with_capacity(input.len());
    let ghost lines = mnemonic_views(input@);
    let mut addr: usize = 0;
    assert(code_views(result@) =~= Seq::<CodeView>::empty());
    for line in it: input.into_iter()
        invariant
            lines == mnemonic_views(it.seq()),
            lines.len() <= usize::MAX,
            addr == it.index(),
            encode_first(lines, table@, addr as nat) == Ok::<Seq<CodeView>, AsmErrorView>(
                code_views(result@),
            ),
    {
        assert(lines[addr as int] == line@);
        match encode(line, table, addr) {
            Ok(code) => {
                assert(code_views(result@.push(code)) =~= code_views(result@).push(code@));
                result.push(code);
            },
            Err(e) => {
                proof {
                    lemma_first_error_stays(lines, table@, addr as nat + 1, lines.len());
                }
                return Err(e);
            },
        }
        addr = addr + 1;
    }
    Ok(result)
}

/// Assembles a source text: reads its items, gives each instruction its
/// address and each label the address it stands for, and encodes the
/// instructions in order. Any error ends the run; no part of the program is
/// given then.
pub fn assemble_source(input: &str) -> (r: Result<Vec<Code>, AsmError>)
    ensures
        match program_of(input@) {
            Ok(expected) => r matches Ok(codes) && code_views(codes@) == expected,
            Err(error) => r matches Err(e) && e@ == error,
        },
{
    let items = parse_file(input)?;
    let (mnemonics, table) = convert(items);
    assemble(mnemonics, &table)
}

} // verus!
