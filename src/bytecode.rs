use vstd::prelude::*;

use std::collections::BTreeMap;

use crate::error::ClassFileError;
use crate::reader::{signed16, signed32, signed8, u16_at, u32_at, BinaryReader, Endian};

verus! {

/// One decoded JVM instruction with its operands.
#[derive(Debug, Clone, PartialEq, Eq)]
pub enum BytecodeInstruction {
    Dup {},
    AConstNull {},
    IConst { constant: i32 },
    LConst { constant: i64 },
    Ldc { constant_pool_index: u8 },
    LdcW { constant_pool_index: u16 },
    Ldc2W { constant_pool_index: u16 },
    ALoad { local_variable_index: u8 },
    AStore { local_variable_index: u8 },
    ILoad { local_variable_index: u8 },
    IStore { local_variable_index: u8 },
    LLoad { local_variable_index: u8 },
    LStore { local_variable_index: u8 },
    AaLoad {},
    AaStore {},
    ANewArray { constant_pool_index: u16 },
    AThrow {},
    New { constant_pool_index: u16 },
    BiPush { immediate: i8 },
    Return {},
    IReturn {},
    LReturn {},
    AReturn {},
    GetStatic { field_ref_index: u16 },
    PutStatic { field_ref_index: u16 },
    GetField { field_ref_index: u16 },
    PutField { field_ref_index: u16 },
    InvokeSpecial { method_ref_index: u16 },
    InvokeStatic { method_ref_index: u16 },
    InvokeVirtual { method_ref_index: u16 },
    InvokeDynamic { constant_pool_index: u16 },
    InvokeInterface { constant_pool_index: u16, count: u8 },
    ArrayLength {},
    IfIcmpEq { offset: i16 },
    IfIcmpNe { offset: i16 },
    IfIcmpLt { offset: i16 },
    IfIcmpGe { offset: i16 },
    IfIcmpGt { offset: i16 },
    IfIcmpLe { offset: i16 },
    IfEq { offset: i16 },
    IfNe { offset: i16 },
    IfLt { offset: i16 },
    IfGe { offset: i16 },
    IfGt { offset: i16 },
    IfLe { offset: i16 },
    IfNonNull { offset: i16 },
    GoTo { offset: i16 },
    TableSwitch { default: i32, low: i32, offsets: Vec<i32> },
    LookupSwitch { default: i32, pairs: Vec<LookupSwitchPair> },
    CheckCast { constant_pool_index: u16 },
    LDiv {},
    IInc { index: u8, constant: i8 },
    IAdd {},
    ISub {},
    I2L {},
    LAdd {},
    LSub {},
    LMul {},
    LCmp {},
}

/// One `match: offset` row of a `lookupswitch`.
#[derive(Debug, Clone, Copy, PartialEq, Eq, Structural)]
pub struct LookupSwitchPair {
    pub match_value: i32,
    pub offset: i32,
}

/// The instruction of a one-byte opcode that has no operand.
pub open spec fn zero_operand(op: u8) -> Option<BytecodeInstruction> {
    match op {
        0x01 => Some(BytecodeInstruction::AConstNull {}),
        0x02 => Some(BytecodeInstruction::IConst { constant: -1i32 }),
        0x03 => Some(BytecodeInstruction::IConst { constant: 0 }),
        0x04 => Some(BytecodeInstruction::IConst { constant: 1 }),
        0x05 => Some(BytecodeInstruction::IConst { constant: 2 }),
        0x06 => Some(BytecodeInstruction::IConst { constant: 3 }),
        0x07 => Some(BytecodeInstruction::IConst { constant: 4 }),
        0x08 => Some(BytecodeInstruction::IConst { constant: 5 }),
        0x09 => Some(BytecodeInstruction::LConst { constant: 0 }),
        0x0a => Some(BytecodeInstruction::LConst { constant: 1 }),
        0x1a => Some(BytecodeInstruction::ILoad { local_variable_index: 0 }),
        0x1b => Some(BytecodeInstruction::ILoad { local_variable_index: 1 }),
        0x1c => Some(BytecodeInstruction::ILoad { local_variable_index: 2 }),
        0x1d => Some(BytecodeInstruction::ILoad { local_variable_index: 3 }),
        0x1e => Some(BytecodeInstruction::LLoad { local_variable_index: 0 }),
        0x1f => Some(BytecodeInstruction::LLoad { local_variable_index: 1 }),
        0x20 => Some(BytecodeInstruction::LLoad { local_variable_index: 2 }),
        0x21 => Some(BytecodeInstruction::LLoad { local_variable_index: 3 }),
        0x2a => Some(BytecodeInstruction::ALoad { local_variable_index: 0 }),
        0x2b => Some(BytecodeInstruction::ALoad { local_variable_index: 1 }),
        0x2c => Some(BytecodeInstruction::ALoad { local_variable_index: 2 }),
        0x2d => Some(BytecodeInstruction::ALoad { local_variable_index: 3 }),
        0x32 => Some(BytecodeInstruction::AaLoad {}),
        0x3b => Some(BytecodeInstruction::IStore { local_variable_index: 0 }),
        0x3c => Some(BytecodeInstruction::IStore { local_variable_index: 1 }),
        0x3d => Some(BytecodeInstruction::IStore { local_variable_index: 2 }),
        0x3e => Some(BytecodeInstruction::IStore { local_variable_index: 3 }),
        0x3f => Some(BytecodeInstruction::LStore { local_variable_index: 0 }),
        0x40 => Some(BytecodeInstruction::LStore { local_variable_index: 1 }),
        0x41 => Some(BytecodeInstruction::LStore { local_variable_index: 2 }),
        0x42 => Some(BytecodeInstruction::LStore { local_variable_index: 3 }),
        0x4b => Some(BytecodeInstruction::AStore { local_variable_index: 0 }),
        0x4c => Some(BytecodeInstruction::AStore { local_variable_index: 1 }),
        0x4d => Some(BytecodeInstruction::AStore { local_variable_index: 2 }),
        0x4e => Some(BytecodeInstruction::AStore { local_variable_index: 3 }),
        0x53 => Some(BytecodeInstruction::AaStore {}),
        0x59 => Some(BytecodeInstruction::Dup {}),
        0x60 => Some(BytecodeInstruction::IAdd {}),
        0x61 => Some(BytecodeInstruction::LAdd {}),
        0x64 => Some(BytecodeInstruction::ISub {}),
        0x65 => Some(BytecodeInstruction::LSub {}),
        0x69 => Some(BytecodeInstruction::LMul {}),
        0x6d => Some(BytecodeInstruction::LDiv {}),
        0x85 => Some(BytecodeInstruction::I2L {}),
        0x94 => Some(BytecodeInstruction::LCmp {}),
        0xac => Some(BytecodeInstruction::IReturn {}),
        0xad => Some(BytecodeInstruction::LReturn {}),
        0xb0 => Some(BytecodeInstruction::AReturn {}),
        0xb1 => Some(BytecodeInstruction::Return {}),
        0xbe => Some(BytecodeInstruction::ArrayLength {}),
        0xbf => Some(BytecodeInstruction::AThrow {}),
        _ => None,
    }
}

/// The instruction of an opcode followed by one operand byte `b`.
pub open spec fn byte_operand(op: u8, b: u8) -> Option<BytecodeInstruction> {
    match op {
        0x10 => Some(BytecodeInstruction::BiPush { immediate: signed8(b as int) as i8 }),
        0x12 => Some(BytecodeInstruction::Ldc { constant_pool_index: b }),
        0x15 => Some(BytecodeInstruction::ILoad { local_variable_index: b }),
        0x16 => Some(BytecodeInstruction::LLoad { local_variable_index: b }),
        0x19 => Some(BytecodeInstruction::ALoad { local_variable_index: b }),
        0x36 => Some(BytecodeInstruction::IStore { local_variable_index: b }),
        0x37 => Some(BytecodeInstruction::LStore { local_variable_index: b }),
        0x3a => Some(BytecodeInstruction::AStore { local_variable_index: b }),
        _ => None,
    }
}

/// The instruction of an opcode followed by a two-byte operand `v`
/// (a pool index, or a signed branch offset).
pub open spec fn short_operand(op: u8, v: u16) -> Option<BytecodeInstruction> {
    match op {
        0x13 => Some(BytecodeInstruction::LdcW { constant_pool_index: v }),
        0x14 => Some(BytecodeInstruction::Ldc2W { constant_pool_index: v }),
        0x99 => Some(BytecodeInstruction::IfEq { offset: signed16(v as int) as i16 }),
        0x9a => Some(BytecodeInstruction::IfNe { offset: signed16(v as int) as i16 }),
        0x9b => Some(BytecodeInstruction::IfLt { offset: signed16(v as int) as i16 }),
        0x9c => Some(BytecodeInstruction::IfGe { offset: signed16(v as int) as i16 }),
        0x9d => Some(BytecodeInstruction::IfGt { offset: signed16(v as int) as i16 }),
        0x9e => Some(BytecodeInstruction::IfLe { offset: signed16(v as int) as i16 }),
        0x9f => Some(BytecodeInstruction::IfIcmpEq { offset: signed16(v as int) as i16 }),
        0xa0 => Some(BytecodeInstruction::IfIcmpNe { offset: signed16(v as int) as i16 }),
        0xa1 => Some(BytecodeInstruction::IfIcmpLt { offset: signed16(v as int) as i16 }),
        0xa2 => Some(BytecodeInstruction::IfIcmpGe { offset: signed16(v as int) as i16 }),
        0xa3 => Some(BytecodeInstruction::IfIcmpGt { offset: signed16(v as int) as i16 }),
        0xa4 => Some(BytecodeInstruction::IfIcmpLe { offset: signed16(v as int) as i16 }),
        0xa7 => Some(BytecodeInstruction::GoTo { offset: signed16(v as int) as i16 }),
        0xb2 => Some(BytecodeInstruction::GetStatic { field_ref_index: v }),
        0xb3 => Some(BytecodeInstruction::PutStatic { field_ref_index: v }),
        0xb4 => Some(BytecodeInstruction::GetField { field_ref_index: v }),
        0xb5 => Some(BytecodeInstruction::PutField { field_ref_index: v }),
        0xb6 => Some(BytecodeInstruction::InvokeVirtual { method_ref_index: v }),
        0xb7 => Some(BytecodeInstruction::InvokeSpecial { method_ref_index: v }),
        0xb8 => Some(BytecodeInstruction::InvokeStatic { method_ref_index: v }),
        0xbb => Some(BytecodeInstruction::New { constant_pool_index: v }),
        0xbd => Some(BytecodeInstruction::ANewArray { constant_pool_index: v }),
        0xc0 => Some(BytecodeInstruction::CheckCast { constant_pool_index: v }),
        0xc7 => Some(BytecodeInstruction::IfNonNull { offset: signed16(v as int) as i16 }),
        _ => None,
    }
}

pub open spec fn is_table_switch(op: u8) -> bool {
    op == 0xaa
}

pub open spec fn is_lookup_switch(op: u8) -> bool {
    op == 0xab
}

/// Whether the decoder knows an opcode.
pub open spec fn opcode_known(op: u8) -> bool {
    zero_operand(op) is Some || byte_operand(op, 0) is Some || short_operand(op, 0) is Some
        || op == 0x84 || op == 0xb9 || op == 0xba || op == 0xaa || op == 0xab
}

/// The first multiple of four at or after `p`.
pub open spec fn align4(p: int) -> int {
    p + (4 - p % 4) % 4
}

/// The big-endian signed 32-bit value at `p`.
pub open spec fn s32(code: Seq<u8>, p: int) -> int {
    signed32(u32_at(Endian::Big, code, p))
}

/// Where the instruction that starts at `p` ends (the offset of the next one).
pub open spec fn instruction_end(code: Seq<u8>, p: int) -> int {
    let op = code[p];
    if zero_operand(op) is Some {
        p + 1
    } else if byte_operand(op, 0) is Some {
        p + 2
    } else if short_operand(op, 0) is Some || op == 0x84 {
        p + 3
    } else if op == 0xb9 || op == 0xba {
        p + 5
    } else if op == 0xaa {
        let h = align4(p + 1);
        h + 12 + 4 * (s32(code, h + 8) - s32(code, h + 4) + 1)
    } else {
        let h = align4(p + 1);
        h + 8 + 8 * s32(code, h + 4)
    }
}

/// Whether `ins` is what the bytes at `p` encode.
pub open spec fn decodes_as(code: Seq<u8>, p: int, ins: BytecodeInstruction) -> bool {
    let op = code[p];
    if zero_operand(op) is Some {
        ins == zero_operand(op)->Some_0
    } else if byte_operand(op, 0) is Some {
        byte_operand(op, code[p + 1]) == Some(ins)
    } else if short_operand(op, 0) is Some {
        short_operand(op, u16_at(Endian::Big, code, p + 1) as u16) == Some(ins)
    } else if op == 0x84 {
        ins == BytecodeInstruction::IInc { index: code[p + 1], constant: signed8(code[p + 2] as int) as i8 }
    } else if op == 0xb9 {
        ins == BytecodeInstruction::InvokeInterface {
            constant_pool_index: u16_at(Endian::Big, code, p + 1) as u16,
            count: code[p + 3],
        }
    } else if op == 0xba {
        ins == BytecodeInstruction::InvokeDynamic {
            constant_pool_index: u16_at(Endian::Big, code, p + 1) as u16,
        }
    } else if op == 0xaa {
        let h = align4(p + 1);
        match ins {
            BytecodeInstruction::TableSwitch { default, low, offsets } => {
                &&& default == s32(code, h)
                &&& low == s32(code, h + 4)
                &&& offsets@.len() == s32(code, h + 8) - s32(code, h + 4) + 1
                &&& forall|k: int| 0 <= k < offsets@.len() ==> #[trigger] offsets@[k] == s32(code, h + 12 + 4 * k)
            },
            _ => false,
        }
    } else if op == 0xab {
        let h = align4(p + 1);
        match ins {
            BytecodeInstruction::LookupSwitch { default, pairs } => {
                &&& default == s32(code, h)
                &&& pairs@.len() == s32(code, h + 4)
                &&& forall|k: int|
                    0 <= k < pairs@.len() ==> #[trigger] pairs@[k].match_value == s32(code, h + 8 + 8 * k)
                        && pairs@[k].offset == s32(code, h + 12 + 8 * k)
            },
            _ => false,
        }
    } else {
        false
    }
}

/// The signed offsets, relative to the instruction, at which control may continue elsewhere.
pub open spec fn branch_offsets(ins: BytecodeInstruction) -> Seq<int> {
    match ins {
        BytecodeInstruction::IfIcmpEq { offset } => seq![offset as int],
        BytecodeInstruction::IfIcmpNe { offset } => seq![offset as int],
        BytecodeInstruction::IfIcmpLt { offset } => seq![offset as int],
        BytecodeInstruction::IfIcmpGe { offset } => seq![offset as int],
        BytecodeInstruction::IfIcmpGt { offset } => seq![offset as int],
        BytecodeInstruction::IfIcmpLe { offset } => seq![offset as int],
        BytecodeInstruction::IfEq { offset } => seq![offset as int],
        BytecodeInstruction::IfNe { offset } => seq![offset as int],
        BytecodeInstruction::IfLt { offset } => seq![offset as int],
        BytecodeInstruction::IfGe { offset } => seq![offset as int],
        BytecodeInstruction::IfGt { offset } => seq![offset as int],
        BytecodeInstruction::IfLe { offset } => seq![offset as int],
        BytecodeInstruction::IfNonNull { offset } => seq![offset as int],
        BytecodeInstruction::GoTo { offset } => seq![offset as int],
        BytecodeInstruction::TableSwitch { default, low, offsets } => seq![default as int]
            + offsets@.map_values(|o: i32| o as int),
        BytecodeInstruction::LookupSwitch { default, pairs } => seq![default as int]
            + pairs@.map_values(|q: LookupSwitchPair| q.offset as int),
        _ => Seq::empty(),
    }
}

/// Every branch of the instruction at `p` lands inside a code block of `len` bytes.
pub open spec fn targets_in_range(p: int, ins: BytecodeInstruction, len: int) -> bool {
    forall|j: int| 0 <= j < branch_offsets(ins).len() ==> 0 <= p + #[trigger] branch_offsets(ins)[j] < len
}

/// The keys of a decoded code block are exactly the offsets at which the decoder, starting
/// at 0 and stepping from each instruction to the next, stopped before `upto`.
pub open spec fn keys_are_instruction_starts(code: Seq<u8>, keys: Set<u32>, upto: int) -> bool {
    &&& upto > 0 ==> keys.contains(0)
    &&& forall|k: u32| #[trigger] keys.contains(k) ==> {
        &&& k < upto
        &&& k < instruction_end(code, k as int) <= upto
        &&& instruction_end(code, k as int) < upto ==> keys.contains(instruction_end(code, k as int) as u32)
        &&& forall|j: u32| k < j < instruction_end(code, k as int) ==> !#[trigger] keys.contains(j)
    }
}

fn zero_operand_exec(op: u8) -> (r: Option<BytecodeInstruction>)
    ensures
        r == zero_operand(op),
{
    match op {
        0x01 => Some(BytecodeInstruction::AConstNull {}),
        0x02 => Some(BytecodeInstruction::IConst { constant: -1i32 }),
        0x03 => Some(BytecodeInstruction::IConst { constant: 0 }),
        0x04 => Some(BytecodeInstruction::IConst { constant: 1 }),
        0x05 => Some(BytecodeInstruction::IConst { constant: 2 }),
        0x06 => Some(BytecodeInstruction::IConst { constant: 3 }),
        0x07 => Some(BytecodeInstruction::IConst { constant: 4 }),
        0x08 => Some(BytecodeInstruction::IConst { constant: 5 }),
        0x09 => Some(BytecodeInstruction::LConst { constant: 0 }),
        0x0a => Some(BytecodeInstruction::LConst { constant: 1 }),
        0x1a => Some(BytecodeInstruction::ILoad { local_variable_index: 0 }),
        0x1b => Some(BytecodeInstruction::ILoad { local_variable_index: 1 }),
        0x1c => Some(BytecodeInstruction::ILoad { local_variable_index: 2 }),
        0x1d => Some(BytecodeInstruction::ILoad { local_variable_index: 3 }),
        0x1e => Some(BytecodeInstruction::LLoad { local_variable_index: 0 }),
        0x1f => Some(BytecodeInstruction::LLoad { local_variable_index: 1 }),
        0x20 => Some(BytecodeInstruction::LLoad { local_variable_index: 2 }),
        0x21 => Some(BytecodeInstruction::LLoad { local_variable_index: 3 }),
        0x2a => Some(BytecodeInstruction::ALoad { local_variable_index: 0 }),
        0x2b => Some(BytecodeInstruction::ALoad { local_variable_index: 1 }),
        0x2c => Some(BytecodeInstruction::ALoad { local_variable_index: 2 }),
        0x2d => Some(BytecodeInstruction::ALoad { local_variable_index: 3 }),
        0x32 => Some(BytecodeInstruction::AaLoad {}),
        0x3b => Some(BytecodeInstruction::IStore { local_variable_index: 0 }),
        0x3c => Some(BytecodeInstruction::IStore { local_variable_index: 1 }),
        0x3d => Some(BytecodeInstruction::IStore { local_variable_index: 2 }),
        0x3e => Some(BytecodeInstruction::IStore { local_variable_index: 3 }),
        0x3f => Some(BytecodeInstruction::LStore { local_variable_index: 0 }),
        0x40 => Some(BytecodeInstruction::LStore { local_variable_index: 1 }),
        0x41 => Some(BytecodeInstruction::LStore { local_variable_index: 2 }),
        0x42 => Some(BytecodeInstruction::LStore { local_variable_index: 3 }),
        0x4b => Some(BytecodeInstruction::AStore { local_variable_index: 0 }),
        0x4c => Some(BytecodeInstruction::AStore { local_variable_index: 1 }),
        0x4d => Some(BytecodeInstruction::AStore { local_variable_index: 2 }),
        0x4e => Some(BytecodeInstruction::AStore { local_variable_index: 3 }),
        0x53 => Some(BytecodeInstruction::AaStore {}),
        0x59 => Some(BytecodeInstruction::Dup {}),
        0x60 => Some(BytecodeInstruction::IAdd {}),
        0x61 => Some(BytecodeInstruction::LAdd {}),
        0x64 => Some(BytecodeInstruction::ISub {}),
        0x65 => Some(BytecodeInstruction::LSub {}),
        0x69 => Some(BytecodeInstruction::LMul {}),
        0x6d => Some(BytecodeInstruction::LDiv {}),
        0x85 => Some(BytecodeInstruction::I2L {}),
        0x94 => Some(BytecodeInstruction::LCmp {}),
        0xac => Some(BytecodeInstruction::IReturn {}),
        0xad => Some(BytecodeInstruction::LReturn {}),
        0xb0 => Some(BytecodeInstruction::AReturn {}),
        0xb1 => Some(BytecodeInstruction::Return {}),
        0xbe => Some(BytecodeInstruction::ArrayLength {}),
        0xbf => Some(BytecodeInstruction::AThrow {}),
        _ => None,
    }
}

fn byte_operand_exec(op: u8, b: u8) -> (r: Option<BytecodeInstruction>)
    ensures
        r == byte_operand(op, b),
{
    let s: i8 = if b >= 128 { (b as i16 - 256) as i8 } else { b as i8 };
    match op {
        0x10 => Some(BytecodeInstruction::BiPush { immediate: s }),
        0x12 => Some(BytecodeInstruction::Ldc { constant_pool_index: b }),
        0x15 => Some(BytecodeInstruction::ILoad { local_variable_index: b }),
        0x16 => Some(BytecodeInstruction::LLoad { local_variable_index: b }),
        0x19 => Some(BytecodeInstruction::ALoad { local_variable_index: b }),
        0x36 => Some(BytecodeInstruction::IStore { local_variable_index: b }),
        0x37 => Some(BytecodeInstruction::LStore { local_variable_index: b }),
        0x3a => Some(BytecodeInstruction::AStore { local_variable_index: b }),
        _ => None,
    }
}

fn short_operand_exec(op: u8, v: u16) -> (r: Option<BytecodeInstruction>)
    ensures
        r == short_operand(op, v),
{
    let s: i16 = if v >= 32768 { (v as i32 - 65536) as i16 } else { v as i16 };
    match op {
        0x13 => Some(BytecodeInstruction::LdcW { constant_pool_index: v }),
        0x14 => Some(BytecodeInstruction::Ldc2W { constant_pool_index: v }),
        0x99 => Some(BytecodeInstruction::IfEq { offset: s }),
        0x9a => Some(BytecodeInstruction::IfNe { offset: s }),
        0x9b => Some(BytecodeInstruction::IfLt { offset: s }),
        0x9c => Some(BytecodeInstruction::IfGe { offset: s }),
        0x9d => Some(BytecodeInstruction::IfGt { offset: s }),
        0x9e => Some(BytecodeInstruction::IfLe { offset: s }),
        0x9f => Some(BytecodeInstruction::IfIcmpEq { offset: s }),
        0xa0 => Some(BytecodeInstruction::IfIcmpNe { offset: s }),
        0xa1 => Some(BytecodeInstruction::IfIcmpLt { offset: s }),
        0xa2 => Some(BytecodeInstruction::IfIcmpGe { offset: s }),
        0xa3 => Some(BytecodeInstruction::IfIcmpGt { offset: s }),
        0xa4 => Some(BytecodeInstruction::IfIcmpLe { offset: s }),
        0xa7 => Some(BytecodeInstruction::GoTo { offset: s }),
        0xb2 => Some(BytecodeInstruction::GetStatic { field_ref_index: v }),
        0xb3 => Some(BytecodeInstruction::PutStatic { field_ref_index: v }),
        0xb4 => Some(BytecodeInstruction::GetField { field_ref_index: v }),
        0xb5 => Some(BytecodeInstruction::PutField { field_ref_index: v }),
        0xb6 => Some(BytecodeInstruction::InvokeVirtual { method_ref_index: v }),
        0xb7 => Some(BytecodeInstruction::InvokeSpecial { method_ref_index: v }),
        0xb8 => Some(BytecodeInstruction::InvokeStatic { method_ref_index: v }),
        0xbb => Some(BytecodeInstruction::New { constant_pool_index: v }),
        0xbd => Some(BytecodeInstruction::ANewArray { constant_pool_index: v }),
        0xc0 => Some(BytecodeInstruction::CheckCast { constant_pool_index: v }),
        0xc7 => Some(BytecodeInstruction::IfNonNull { offset: s }),
        _ => None,
    }
}

/// The instruction at `p` can be decoded: its opcode is known, a `tableswitch` has
/// `high >= low`, a `lookupswitch` a count of at least zero, and all its bytes lie in the block.
pub open spec fn fits_at(code: Seq<u8>, p: int) -> bool {
    let op = code[p];
    let h = align4(p + 1);
    &&& opcode_known(op)
    &&& op == 0xaa ==> h + 12 <= code.len() && s32(code, h + 8) >= s32(code, h + 4)
    &&& op == 0xab ==> h + 8 <= code.len() && s32(code, h + 4) >= 0
    &&& instruction_end(code, p) <= code.len()
}

/// The instruction at `p` decodes and its branches land inside the block.
pub open spec fn step_ok(code: Seq<u8>, p: int) -> bool {
    fits_at(code, p) && forall|ins: BytecodeInstruction| #[trigger] decodes_as(code, p, ins) ==> targets_in_range(p, ins, code.len() as int)
}

/// Decoding from `p`, instruction after instruction, reaches the end of the block.
pub open spec fn decodable_from(code: Seq<u8>, p: int) -> bool
    decreases code.len() - p,
{
    if p < 0 || p >= code.len() {
        true
    } else {
        step_ok(code, p) && instruction_end(code, p) > p && decodable_from(code, instruction_end(code, p))
    }
}

/// The opcode byte that stops decoding from `p`, if the walk reaches an unknown opcode
/// before any other fault.
pub open spec fn unknown_opcode_from(code: Seq<u8>, p: int) -> Option<u8>
    decreases code.len() - p,
{
    if p < 0 || p >= code.len() {
        None
    } else if !opcode_known(code[p]) {
        Some(code[p])
    } else if step_ok(code, p) && instruction_end(code, p) > p {
        unknown_opcode_from(code, instruction_end(code, p))
    } else {
        None
    }
}

proof fn lemma_same_targets(code: Seq<u8>, p: int, a: BytecodeInstruction, b: BytecodeInstruction)
    requires
        decodes_as(code, p, a),
        decodes_as(code, p, b),
    ensures
        branch_offsets(a) == branch_offsets(b),
{
    let op = code[p];
    if op == 0xaa {
        let oa = a->TableSwitch_offsets@;
        let ob = b->TableSwitch_offsets@;
        assert(oa =~= ob);
        assert(branch_offsets(a) =~= branch_offsets(b));
    } else if op == 0xab && !(zero_operand(op) is Some || byte_operand(op, 0) is Some || short_operand(op, 0) is Some) {
        let pa = a->LookupSwitch_pairs@;
        let pb = b->LookupSwitch_pairs@;
        let h = align4(p + 1);
        assert forall|k: int| 0 <= k < pa.len() implies pa[k] == pb[k] by {
            assert(pa[k].match_value == s32(code, h + 8 + 8 * k));
            assert(pb[k].match_value == s32(code, h + 8 + 8 * k));
        }
        assert(pa =~= pb);
        assert(branch_offsets(a) =~= branch_offsets(b));
    }
}

fn decode_table_switch(reader: &mut BinaryReader, position: u32) -> (r: Result<BytecodeInstruction, ClassFileError>)
    requires
        old(reader).wf(),
        old(reader).byte_order() == Endian::Big,
        old(reader).pos() >= 1,
        old(reader).data()[old(reader).pos() - 1] == 0xaa,
    ensures
        final(reader).wf(),
        final(reader).data() == old(reader).data(),
        final(reader).byte_order() == Endian::Big,
        r matches Ok(ins) ==> decodes_as(old(reader).data(), old(reader).pos() - 1, ins)
            && final(reader).pos() == instruction_end(old(reader).data(), old(reader).pos() - 1),
        r matches Err(e) ==> e is UnexpectedEof || e == (ClassFileError::BadSwitch { position }),
        r is Ok <==> fits_at(old(reader).data(), old(reader).pos() - 1),
{
    reader.align_to_four()?;
    let default = reader.read_i32()?;
    let low = reader.read_i32()?;
    let high = reader.read_i32()?;
    if high < low {
        return Err(ClassFileError::BadSwitch { position });
    }
    let count: i64 = high as i64 - low as i64 + 1;
    let remaining = reader.len() - reader.position();
    if count as u64 > (remaining / 4) as u64 {
        return Err(ClassFileError::UnexpectedEof);
    }
    let offsets = reader.read_i32_vec(count as usize)?;
    Ok(BytecodeInstruction::TableSwitch { default, low, offsets })
}

fn decode_lookup_switch(reader: &mut BinaryReader, position: u32) -> (r: Result<BytecodeInstruction, ClassFileError>)
    requires
        old(reader).wf(),
        old(reader).byte_order() == Endian::Big,
        old(reader).pos() >= 1,
        old(reader).data()[old(reader).pos() - 1] == 0xab,
    ensures
        final(reader).wf(),
        final(reader).data() == old(reader).data(),
        final(reader).byte_order() == Endian::Big,
        r matches Ok(ins) ==> decodes_as(old(reader).data(), old(reader).pos() - 1, ins)
            && final(reader).pos() == instruction_end(old(reader).data(), old(reader).pos() - 1),
        r matches Err(e) ==> e is UnexpectedEof || e == (ClassFileError::BadSwitch { position }),
        r is Ok <==> fits_at(old(reader).data(), old(reader).pos() - 1),
{
    reader.align_to_four()?;
    let default = reader.read_i32()?;
    let npairs = reader.read_i32()?;
    if npairs < 0 {
        return Err(ClassFileError::BadSwitch { position });
    }
    let remaining = reader.len() - reader.position();
    if npairs as u64 > (remaining / 8) as u64 {
        return Err(ClassFileError::UnexpectedEof);
    }
    let ghost h = reader.pos() - 8;
    let mut pairs: Vec<LookupSwitchPair> = Vec::new();
    let mut k: i32 = 0;
    while k < npairs
        invariant
            reader.wf(),
            reader.data() == old(reader).data(),
            reader.byte_order() == Endian::Big,
            0 <= k <= npairs,
            npairs as int <= (reader.data().len() - h - 8) / 8,
            reader.pos() == h + 8 + 8 * k,
            pairs@.len() == k,
            forall|j: int|
                0 <= j < k ==> #[trigger] pairs@[j].match_value == s32(reader.data(), h + 8 + 8 * j)
                    && pairs@[j].offset == s32(reader.data(), h + 12 + 8 * j),
        decreases npairs - k,
    {
        let match_value = reader.read_i32()?;
        let offset = reader.read_i32()?;
        pairs.push(LookupSwitchPair { match_value, offset });
        k = k + 1;
    }
    Ok(BytecodeInstruction::LookupSwitch { default, pairs })
}

/// Decodes the instruction at the cursor and moves past it.
pub fn decode_instruction(reader: &mut BinaryReader) -> (r: Result<BytecodeInstruction, ClassFileError>)
    requires
        old(reader).wf(),
        old(reader).byte_order() == Endian::Big,
        old(reader).has(1),
        old(reader).pos() <= u32::MAX,
    ensures
        final(reader).wf(),
        final(reader).data() == old(reader).data(),
        final(reader).byte_order() == Endian::Big,
        r matches Ok(ins) ==> decodes_as(old(reader).data(), old(reader).pos(), ins)
            && final(reader).pos() == instruction_end(old(reader).data(), old(reader).pos()),
        r matches Err(ClassFileError::UnknownOpcode { opcode }) ==> !opcode_known(opcode)
            && opcode == old(reader).data()[old(reader).pos()],
        r is Ok <==> fits_at(old(reader).data(), old(reader).pos()),
        !opcode_known(old(reader).data()[old(reader).pos()]) ==> r == Err::<BytecodeInstruction, ClassFileError>(
            ClassFileError::UnknownOpcode { opcode: old(reader).data()[old(reader).pos()] },
        ),
{
    let position = reader.position() as u32;
    let op = reader.read_u8()?;
    if let Some(ins) = zero_operand_exec(op) {
        return Ok(ins);
    }
    if byte_operand_exec(op, 0).is_some() {
        let b = reader.read_u8()?;
        return match byte_operand_exec(op, b) {
            Some(ins) => Ok(ins),
            None => Err(ClassFileError::UnknownOpcode { opcode: op }),
        };
    }
    if short_operand_exec(op, 0).is_some() {
        let v = reader.read_u16()?;
        return match short_operand_exec(op, v) {
            Some(ins) => Ok(ins),
            None => Err(ClassFileError::UnknownOpcode { opcode: op }),
        };
    }
    if op == 0x84 {
        let index = reader.read_u8()?;
        let constant = reader.read_i8()?;
        Ok(BytecodeInstruction::IInc { index, constant })
    } else if op == 0xb9 {
        let constant_pool_index = reader.read_u16()?;
        let count = reader.read_u8()?;
        reader.read_u8()?;
        Ok(BytecodeInstruction::InvokeInterface { constant_pool_index, count })
    } else if op == 0xba {
        let constant_pool_index = reader.read_u16()?;
        reader.read_u8()?;
        reader.read_u8()?;
        Ok(BytecodeInstruction::InvokeDynamic { constant_pool_index })
    } else if op == 0xaa {
        decode_table_switch(reader, position)
    } else if op == 0xab {
        decode_lookup_switch(reader, position)
    } else {
        Err(ClassFileError::UnknownOpcode { opcode: op })
    }
}

fn lands_inside(position: u32, offset: i64, len: u64) -> (r: bool)
    requires
        -2147483648 <= offset <= 2147483647,
    ensures
        r == (0 <= position + offset < len),
{
    let t: i64 = position as i64 + offset;
    t >= 0 && (t as u64) < len
}

proof fn lemma_single_target(p: int, ins: BytecodeInstruction, len: int, d: int)
    requires
        branch_offsets(ins) == seq![d],
    ensures
        targets_in_range(p, ins, len) == (0 <= p + d < len),
{
    assert(branch_offsets(ins)[0] == d);
}

/// Whether every branch of `ins`, placed at `position`, lands inside a block of `len` bytes.
pub fn targets_within(position: u32, ins: &BytecodeInstruction, len: u64) -> (r: bool)
    ensures
        r == targets_in_range(position as int, *ins, len as int),
{
    match ins {
        BytecodeInstruction::IfIcmpEq { offset } => {
            proof {
                lemma_single_target(position as int, *ins, len as int, *offset as int);
            }
            lands_inside(position, *offset as i64, len)
        },
        BytecodeInstruction::IfIcmpNe { offset } => {
            proof {
                lemma_single_target(position as int, *ins, len as int, *offset as int);
            }
            lands_inside(position, *offset as i64, len)
        },
        BytecodeInstruction::IfIcmpLt { offset } => {
            proof {
                lemma_single_target(position as int, *ins, len as int, *offset as int);
            }
            lands_inside(position, *offset as i64, len)
        },
        BytecodeInstruction::IfIcmpGe { offset } => {
            proof {
                lemma_single_target(position as int, *ins, len as int, *offset as int);
            }
            lands_inside(position, *offset as i64, len)
        },
        BytecodeInstruction::IfIcmpGt { offset } => {
            proof {
                lemma_single_target(position as int, *ins, len as int, *offset as int);
            }
            lands_inside(position, *offset as i64, len)
        },
        BytecodeInstruction::IfIcmpLe { offset } => {
            proof {
                lemma_single_target(position as int, *ins, len as int, *offset as int);
            }
            lands_inside(position, *offset as i64, len)
        },
        BytecodeInstruction::IfEq { offset } => {
            proof {
                lemma_single_target(position as int, *ins, len as int, *offset as int);
            }
            lands_inside(position, *offset as i64, len)
        },
        BytecodeInstruction::IfNe { offset } => {
            proof {
                lemma_single_target(position as int, *ins, len as int, *offset as int);
            }
            lands_inside(position, *offset as i64, len)
        },
        BytecodeInstruction::IfLt { offset } => {
            proof {
                lemma_single_target(position as int, *ins, len as int, *offset as int);
            }
            lands_inside(position, *offset as i64, len)
        },
        BytecodeInstruction::IfGe { offset } => {
            proof {
                lemma_single_target(position as int, *ins, len as int, *offset as int);
            }
            lands_inside(position, *offset as i64, len)
        },
        BytecodeInstruction::IfGt { offset } => {
            proof {
                lemma_single_target(position as int, *ins, len as int, *offset as int);
            }
            lands_inside(position, *offset as i64, len)
        },
        BytecodeInstruction::IfLe { offset } => {
            proof {
                lemma_single_target(position as int, *ins, len as int, *offset as int);
            }
            lands_inside(position, *offset as i64, len)
        },
        BytecodeInstruction::IfNonNull { offset } => {
            proof {
                lemma_single_target(position as int, *ins, len as int, *offset as int);
            }
            lands_inside(position, *offset as i64, len)
        },
        BytecodeInstruction::GoTo { offset } => {
            proof {
                lemma_single_target(position as int, *ins, len as int, *offset as int);
            }
            lands_inside(position, *offset as i64, len)
        },
        BytecodeInstruction::TableSwitch { default, low: _, offsets } => {
            let ghost bo = branch_offsets(*ins);
            if !lands_inside(position, *default as i64, len) {
                assert(!(0 <= position + bo[0] < len));
                return false;
            }
            let mut k: usize = 0;
            while k < offsets.len()
                invariant
                    bo == branch_offsets(*ins),
                    bo == seq![*default as int] + offsets@.map_values(|o: i32| o as int),
                    0 <= k <= offsets@.len(),
                    forall|j: int| 0 <= j < k + 1 ==> 0 <= position + #[trigger] bo[j] < len,
                decreases offsets@.len() - k,
            {
                if !lands_inside(position, offsets[k] as i64, len) {
                    assert(bo[k + 1] == offsets@[k as int]);
                    return false;
                }
                assert(bo[k + 1] == offsets@[k as int]);
                k = k + 1;
            }
            true
        },
        BytecodeInstruction::LookupSwitch { default, pairs } => {
            let ghost bo = branch_offsets(*ins);
            if !lands_inside(position, *default as i64, len) {
                assert(!(0 <= position + bo[0] < len));
                return false;
            }
            let mut k: usize = 0;
            while k < pairs.len()
                invariant
                    bo == branch_offsets(*ins),
                    bo == seq![*default as int] + pairs@.map_values(|q: LookupSwitchPair| q.offset as int),
                    0 <= k <= pairs@.len(),
                    forall|j: int| 0 <= j < k + 1 ==> 0 <= position + #[trigger] bo[j] < len,
                decreases pairs@.len() - k,
            {
                if !lands_inside(position, pairs[k].offset as i64, len) {
                    assert(bo[k + 1] == pairs@[k as int].offset);
                    return false;
                }
                assert(bo[k + 1] == pairs@[k as int].offset);
                k = k + 1;
            }
            true
        },
        _ => true,
    }
}

/// Decodes a whole code block, from offset 0 to its end, into a map from each
/// instruction's offset to the instruction. Succeeds exactly when every instruction on the
/// way decodes and branches inside the block; fails on an unknown opcode, a truncated
/// instruction, a malformed switch, or a branch whose target falls outside the block.
pub fn parse_bytecode(reader: &mut BinaryReader) -> (r: Result<BTreeMap<u32, BytecodeInstruction>, ClassFileError>)
    requires
        old(reader).wf(),
        old(reader).byte_order() == Endian::Big,
        old(reader).pos() == 0,
        old(reader).data().len() <= u32::MAX,
    ensures
        final(reader).wf(),
        final(reader).data() == old(reader).data(),
        r matches Ok(m) ==> {
            let code = old(reader).data();
            &&& keys_are_instruction_starts(code, m@.dom(), code.len() as int)
            &&& forall|k: u32| #[trigger] m@.dom().contains(k) ==> decodes_as(code, k as int, m@[k])
                && targets_in_range(k as int, m@[k], code.len() as int)
        },
        r matches Err(ClassFileError::UnknownOpcode { opcode }) ==> !opcode_known(opcode),
        r is Ok <==> decodable_from(old(reader).data(), 0),
        r is Ok ==> final(reader).pos() == old(reader).data().len(),
        unknown_opcode_from(old(reader).data(), 0) matches Some(b) ==> r == Err::<BTreeMap<u32, BytecodeInstruction>, ClassFileError>(
            ClassFileError::UnknownOpcode { opcode: b },
        ),
{
    let ghost code = reader.data();
    let mut instructions: BTreeMap<u32, BytecodeInstruction> = BTreeMap::new();
    while reader.position() < reader.len()
        invariant
            reader.wf(),
            reader.data() == code,
            code == old(reader).data(),
            reader.byte_order() == Endian::Big,
            code.len() <= u32::MAX,
            keys_are_instruction_starts(code, instructions@.dom(), reader.pos()),
            forall|k: u32| #[trigger] instructions@.dom().contains(k) ==> decodes_as(code, k as int, instructions@[k])
                && targets_in_range(k as int, instructions@[k], code.len() as int),
            decodable_from(code, 0) == decodable_from(code, reader.pos()),
            unknown_opcode_from(code, 0) == unknown_opcode_from(code, reader.pos() as int),
        decreases code.len() - reader.pos(),
    {
        let position = reader.position() as u32;
        let ghost before = instructions@.dom();
        let ins = decode_instruction(reader)?;
        if !targets_within(position, &ins, reader.len() as u64) {
            proof {
                assert(!step_ok(code, position as int));
            }
            return Err(ClassFileError::BranchOutOfRange { position });
        }
        proof {
            let p = position as int;
            assert(step_ok(code, p)) by {
                assert forall|other: BytecodeInstruction| #[trigger] decodes_as(code, p, other) implies targets_in_range(p, other, code.len() as int) by {
                    lemma_same_targets(code, p, ins, other);
                }
            }
            assert(instruction_end(code, p) > p) by {
                let op = code[p];
                if op == 0xaa || op == 0xab {
                    let h = align4(p + 1);
                    assert(h >= p + 1);
                }
            }
        }
        instructions.insert(position, ins);
        proof {
            let dom = instructions@.dom();
            assert(dom == before.insert(position));
            assert forall|k: u32| #[trigger] dom.contains(k) implies {
                &&& k < reader.pos()
                &&& k < instruction_end(code, k as int) <= reader.pos()
                &&& instruction_end(code, k as int) < reader.pos() ==> dom.contains(instruction_end(code, k as int) as u32)
                &&& forall|j: u32| k < j < instruction_end(code, k as int) ==> !#[trigger] dom.contains(j)
            } by {
                if k != position {
                    assert(before.contains(k));
                    if instruction_end(code, k as int) == position {
                        assert(dom.contains(position));
                    }
                }
            }
        }
    }
    Ok(instructions)
}

/// The header of a `tableswitch` or `lookupswitch` whose opcode stands at offset `p` of the
/// code block starts at the next multiple of four after the opcode, with fewer than four
/// padding bytes between them.
pub proof fn switch_header_aligned(p: int)
    requires
        p >= 0,
    ensures
        align4(p + 1) % 4 == 0,
        p + 1 <= align4(p + 1) < p + 5,
{
}

} // verus!
