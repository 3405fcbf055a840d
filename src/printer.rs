use vstd::prelude::*;

use crate::attributes::VerificationTypeInfo;
use crate::bytecode::{branch_offsets, targets_in_range, BytecodeInstruction, LookupSwitchPair};
use crate::constant_pool::{
    as_text, class_name, convert_utf8, entry_of, escape, invoke_dynamic, invoke_dynamic_text,
    member_ref_text, name_and_type, name_and_type_text, utf8_content, ConstantPool,
    ConstantPoolInfo,
};
use crate::reference_kind::{java_repr, kind_code, spec_java_repr, ReferenceKind};
use crate::error::ClassFileError;
use crate::reader::signed32;
use crate::text::{
    blank, decimal, is_blank, decimal_string, lit, pad_end, pad_end_in_place, pad_start, pad_start_string,
    push_char, push_decimal, push_signed_decimal, push_str, signed_decimal, signed_decimal_string,
    spaces,
};

verus! {

/// A mnemonic in a column of 13 characters, a space, then its operand.
pub open spec fn with_operand(m: Seq<char>, operand: Seq<char>) -> Seq<char> {
    pad_end(m, 13) + seq![' '] + operand
}

/// `aload_2` for a local index up to 3, `aload         7` otherwise.
pub open spec fn short_or_operand(m: Seq<char>, idx: nat) -> Seq<char> {
    if idx <= 3 {
        m + seq!['_'] + decimal(idx)
    } else {
        with_operand(m, decimal(idx))
    }
}

/// One `label: target` row of a switch listing.
pub open spec fn switch_row(label: Seq<char>, target: int) -> Seq<char> {
    spaces(13) + pad_start(label, 11) + ": "@ + decimal(target as nat)
}

/// The first `n` rows of a `tableswitch` at `p`, one per line.
pub open spec fn table_rows(p: int, low: int, offsets: Seq<i32>, n: nat) -> Seq<char>
    decreases n,
{
    if n == 0 || n > offsets.len() {
        Seq::empty()
    } else if n == 1 {
        switch_row(signed_decimal(low), p + offsets[0])
    } else {
        table_rows(p, low, offsets, (n - 1) as nat) + seq!['\n'] + switch_row(
            signed_decimal(low + n - 1),
            p + offsets[n - 1],
        )
    }
}

/// The first `n` rows of a `lookupswitch` at `p`, one per line.
pub open spec fn lookup_rows(p: int, pairs: Seq<LookupSwitchPair>, n: nat) -> Seq<char>
    decreases n,
{
    if n == 0 || n > pairs.len() {
        Seq::empty()
    } else if n == 1 {
        switch_row(signed_decimal(pairs[0].match_value as int), p + pairs[0].offset)
    } else {
        lookup_rows(p, pairs, (n - 1) as nat) + seq!['\n'] + switch_row(
            signed_decimal(pairs[n - 1].match_value as int),
            p + pairs[n - 1].offset,
        )
    }
}

/// The `default:` row and the closing brace of a switch listing.
pub open spec fn switch_tail(p: int, default: int) -> Seq<char> {
    "\n                 default: "@ + decimal((p + default) as nat) + "\n            }"@
}

/// The listing text of the instruction at offset `p`, branch targets made absolute.
pub open spec fn instruction_text(p: int, ins: BytecodeInstruction) -> Seq<char> {
    match ins {
        BytecodeInstruction::Dup {} => "dup"@,
        BytecodeInstruction::AConstNull {} => "aconst_null"@,
        BytecodeInstruction::AaLoad {} => "aaload"@,
        BytecodeInstruction::AaStore {} => "aastore"@,
        BytecodeInstruction::AThrow {} => "athrow"@,
        BytecodeInstruction::Return {} => "return"@,
        BytecodeInstruction::IReturn {} => "ireturn"@,
        BytecodeInstruction::LReturn {} => "lreturn"@,
        BytecodeInstruction::AReturn {} => "areturn"@,
        BytecodeInstruction::ArrayLength {} => "arraylength"@,
        BytecodeInstruction::LDiv {} => "ldiv"@,
        BytecodeInstruction::IAdd {} => "iadd"@,
        BytecodeInstruction::ISub {} => "isub"@,
        BytecodeInstruction::I2L {} => "i2l"@,
        BytecodeInstruction::LAdd {} => "ladd"@,
        BytecodeInstruction::LSub {} => "lsub"@,
        BytecodeInstruction::LMul {} => "lmul"@,
        BytecodeInstruction::LCmp {} => "lcmp"@,
        BytecodeInstruction::ALoad { local_variable_index } => short_or_operand("aload"@, local_variable_index as nat),
        BytecodeInstruction::AStore { local_variable_index } => short_or_operand("astore"@, local_variable_index as nat),
        BytecodeInstruction::ILoad { local_variable_index } => short_or_operand("iload"@, local_variable_index as nat),
        BytecodeInstruction::IStore { local_variable_index } => short_or_operand("istore"@, local_variable_index as nat),
        BytecodeInstruction::LLoad { local_variable_index } => short_or_operand("lload"@, local_variable_index as nat),
        BytecodeInstruction::LStore { local_variable_index } => short_or_operand("lstore"@, local_variable_index as nat),
        BytecodeInstruction::Ldc { constant_pool_index } => with_operand("ldc"@, seq!['#'] + decimal(constant_pool_index as nat)),
        BytecodeInstruction::LdcW { constant_pool_index } => with_operand("ldc_w"@, seq!['#'] + decimal(constant_pool_index as nat)),
        BytecodeInstruction::Ldc2W { constant_pool_index } => with_operand("ldc2_w"@, seq!['#'] + decimal(constant_pool_index as nat)),
        BytecodeInstruction::ANewArray { constant_pool_index } => with_operand("anewarray"@, seq!['#'] + decimal(constant_pool_index as nat)),
        BytecodeInstruction::New { constant_pool_index } => with_operand("new"@, seq!['#'] + decimal(constant_pool_index as nat)),
        BytecodeInstruction::CheckCast { constant_pool_index } => with_operand("checkcast"@, seq!['#'] + decimal(constant_pool_index as nat)),
        BytecodeInstruction::GetStatic { field_ref_index } => with_operand("getstatic"@, seq!['#'] + decimal(field_ref_index as nat)),
        BytecodeInstruction::PutStatic { field_ref_index } => with_operand("putstatic"@, seq!['#'] + decimal(field_ref_index as nat)),
        BytecodeInstruction::GetField { field_ref_index } => with_operand("getfield"@, seq!['#'] + decimal(field_ref_index as nat)),
        BytecodeInstruction::PutField { field_ref_index } => with_operand("putfield"@, seq!['#'] + decimal(field_ref_index as nat)),
        BytecodeInstruction::InvokeSpecial { method_ref_index } => with_operand("invokespecial"@, seq!['#'] + decimal(method_ref_index as nat)),
        BytecodeInstruction::InvokeStatic { method_ref_index } => with_operand("invokestatic"@, seq!['#'] + decimal(method_ref_index as nat)),
        BytecodeInstruction::InvokeVirtual { method_ref_index } => with_operand("invokevirtual"@, seq!['#'] + decimal(method_ref_index as nat)),
        BytecodeInstruction::IfIcmpEq { offset } => with_operand("if_icmpeq"@, decimal((p + offset) as nat)),
        BytecodeInstruction::IfIcmpNe { offset } => with_operand("if_icmpne"@, decimal((p + offset) as nat)),
        BytecodeInstruction::IfIcmpLt { offset } => with_operand("if_icmplt"@, decimal((p + offset) as nat)),
        BytecodeInstruction::IfIcmpGe { offset } => with_operand("if_icmpge"@, decimal((p + offset) as nat)),
        BytecodeInstruction::IfIcmpGt { offset } => with_operand("if_icmpgt"@, decimal((p + offset) as nat)),
        BytecodeInstruction::IfIcmpLe { offset } => with_operand("if_icmple"@, decimal((p + offset) as nat)),
        BytecodeInstruction::IfEq { offset } => with_operand("ifeq"@, decimal((p + offset) as nat)),
        BytecodeInstruction::IfNe { offset } => with_operand("ifne"@, decimal((p + offset) as nat)),
        BytecodeInstruction::IfLt { offset } => with_operand("iflt"@, decimal((p + offset) as nat)),
        BytecodeInstruction::IfGe { offset } => with_operand("ifge"@, decimal((p + offset) as nat)),
        BytecodeInstruction::IfGt { offset } => with_operand("ifgt"@, decimal((p + offset) as nat)),
        BytecodeInstruction::IfLe { offset } => with_operand("ifle"@, decimal((p + offset) as nat)),
        BytecodeInstruction::IfNonNull { offset } => with_operand("ifnonnull"@, decimal((p + offset) as nat)),
        BytecodeInstruction::GoTo { offset } => with_operand("goto"@, decimal((p + offset) as nat)),
        BytecodeInstruction::IConst { constant } => if constant == -1 {
            "iconst_m1"@
        } else if 0 <= constant <= 5 {
            "iconst_"@ + decimal(constant as nat)
        } else {
            with_operand("iconst"@, signed_decimal(constant as int))
        },
        BytecodeInstruction::LConst { constant } => if 0 <= constant <= 1 {
            "lconst_"@ + decimal(constant as nat)
        } else {
            with_operand("lconst"@, signed_decimal(constant as int))
        },
        BytecodeInstruction::BiPush { immediate } => with_operand("bipush"@, signed_decimal(immediate as int)),
        BytecodeInstruction::IInc { index, constant } => with_operand(
            "iinc"@,
            decimal(index as nat) + ", "@ + signed_decimal(constant as int),
        ),
        BytecodeInstruction::InvokeInterface { constant_pool_index, count } => with_operand(
            "invokeinterface"@,
            seq!['#'] + decimal(constant_pool_index as nat) + ",  "@ + decimal(count as nat),
        ),
        BytecodeInstruction::InvokeDynamic { constant_pool_index } => with_operand(
            "invokedynamic"@,
            seq!['#'] + decimal(constant_pool_index as nat) + ",  0"@,
        ),
        BytecodeInstruction::TableSwitch { default, low, offsets } => "tableswitch   { // "@
            + signed_decimal(low as int) + " to "@ + signed_decimal(low + offsets@.len() - 1)
            + seq!['\n'] + table_rows(p, low as int, offsets@, offsets@.len()) + switch_tail(
            p,
            default as int,
        ),
        BytecodeInstruction::LookupSwitch { default, pairs } => "lookupswitch  { // "@ + decimal(
            pairs@.len(),
        ) + seq!['\n'] + lookup_rows(p, pairs@, pairs@.len()) + switch_tail(p, default as int),
    }
}

/// `position + offset`, for a target that lies in `0..=u32::MAX`.
pub fn add_offset(position: u32, offset: i64) -> (r: u32)
    requires
        0 <= position + offset <= u32::MAX,
    ensures
        r == position + offset,
{
    (position as i64 + offset) as u32
}

fn with_operand_string(m: &str, operand: &String) -> (r: String)
    ensures
        r@ == with_operand(m@, operand@),
{
    let mut s = lit(m);
    pad_end_in_place(&mut s, 13);
    push_char(&mut s, ' ');
    push_str(&mut s, operand.as_str());
    s
}

fn short_or_operand_string(m: &str, idx: u8) -> (r: String)
    ensures
        r@ == short_or_operand(m@, idx as nat),
{
    if idx <= 3 {
        let mut s = lit(m);
        push_char(&mut s, '_');
        push_decimal(&mut s, idx as u64);
        assert(s@ =~= m@ + seq!['_'] + decimal(idx as nat));
        s
    } else {
        with_operand_string(m, &decimal_string(idx as u64))
    }
}

fn push_switch_row(out: &mut String, label: &String, target: u32)
    ensures
        final(out)@ == old(out)@ + switch_row(label@, target as int),
{
    let mut row = String::new();
    let mut k: usize = 0;
    while k < 13
        invariant
            0 <= k <= 13,
            row@ == spaces(k as int),
        decreases 13 - k,
    {
        push_char(&mut row, ' ');
        k = k + 1;
        assert(row@ =~= spaces(k as int));
    }
    let l = pad_start_string(label.as_str(), 11);
    push_str(&mut row, l.as_str());
    push_str(&mut row, ": ");
    push_decimal(&mut row, target as u64);
    push_str(out, row.as_str());
    assert(final(out)@ =~= old(out)@ + switch_row(label@, target as int));
}

fn push_switch_tail(out: &mut String, p: u32, default: i32)
    requires
        0 <= p + default <= u32::MAX,
    ensures
        final(out)@ == old(out)@ + switch_tail(p as int, default as int),
{
    push_str(out, "\n                 default: ");
    push_decimal(out, add_offset(p, default as i64) as u64);
    push_str(out, "\n            }");
    assert(final(out)@ =~= old(out)@ + switch_tail(p as int, default as int));
}

fn table_switch_text(p: u32, default: i32, low: i32, offsets: &Vec<i32>) -> (r: String)
    requires
        low + offsets@.len() - 1 <= i32::MAX,
        0 <= p + default <= u32::MAX,
        forall|k: int| 0 <= k < offsets@.len() ==> 0 <= p + #[trigger] offsets@[k] <= u32::MAX,
    ensures
        r@ == "tableswitch   { // "@ + signed_decimal(low as int) + " to "@ + signed_decimal(
            low + offsets@.len() - 1,
        ) + seq!['\n'] + table_rows(p as int, low as int, offsets@, offsets@.len())
            + switch_tail(p as int, default as int),
{
    let mut s = lit("tableswitch   { // ");
    push_signed_decimal(&mut s, low as i64);
    push_str(&mut s, " to ");
    let high: i64 = low as i64 + offsets.len() as i64 - 1;
    push_signed_decimal(&mut s, high);
    push_char(&mut s, '\n');
    let ghost head = s@;
    let mut k: usize = 0;
    while k < offsets.len()
        invariant
            0 <= k <= offsets@.len(),
            low + offsets@.len() - 1 <= i32::MAX,
            forall|j: int| 0 <= j < offsets@.len() ==> 0 <= p + #[trigger] offsets@[j] <= u32::MAX,
            s@ == head + table_rows(p as int, low as int, offsets@, k as nat),
        decreases offsets@.len() - k,
    {
        if k > 0 {
            push_char(&mut s, '\n');
        }
        let label = signed_decimal_string(low as i64 + k as i64);
        push_switch_row(&mut s, &label, add_offset(p, offsets[k] as i64));
        assert(s@ =~= head + table_rows(p as int, low as int, offsets@, (k + 1) as nat));
        k = k + 1;
    }
    push_switch_tail(&mut s, p, default);
    s
}

fn lookup_switch_text(p: u32, default: i32, pairs: &Vec<LookupSwitchPair>) -> (r: String)
    requires
        0 <= p + default <= u32::MAX,
        forall|k: int| 0 <= k < pairs@.len() ==> 0 <= p + #[trigger] pairs@[k].offset <= u32::MAX,
    ensures
        r@ == "lookupswitch  { // "@ + decimal(pairs@.len()) + seq!['\n'] + lookup_rows(
            p as int,
            pairs@,
            pairs@.len(),
        ) + switch_tail(p as int, default as int),
{
    let mut s = lit("lookupswitch  { // ");
    push_decimal(&mut s, pairs.len() as u64);
    push_char(&mut s, '\n');
    let ghost head = s@;
    let mut k: usize = 0;
    while k < pairs.len()
        invariant
            0 <= k <= pairs@.len(),
            forall|j: int| 0 <= j < pairs@.len() ==> 0 <= p + #[trigger] pairs@[j].offset <= u32::MAX,
            s@ == head + lookup_rows(p as int, pairs@, k as nat),
        decreases pairs@.len() - k,
    {
        if k > 0 {
            push_char(&mut s, '\n');
        }
        let label = signed_decimal_string(pairs[k].match_value as i64);
        push_switch_row(&mut s, &label, add_offset(p, pairs[k].offset as i64));
        assert(s@ =~= head + lookup_rows(p as int, pairs@, (k + 1) as nat));
        k = k + 1;
    }
    push_switch_tail(&mut s, p, default);
    s
}

/// The listing text of `instruction` at offset `position`: mnemonic, operands, and absolute
/// branch targets.
pub fn get_opcode_and_arguments_string(position: u32, instruction: &BytecodeInstruction) -> (r: String)
    requires
        targets_in_range(position as int, *instruction, 4294967296),
        instruction matches BytecodeInstruction::TableSwitch { low, offsets, .. } ==> low + offsets@.len() - 1 <= i32::MAX,
    ensures
        r@ == instruction_text(position as int, *instruction),
{
    let p = position;
    match instruction {
        BytecodeInstruction::Dup {} => lit("dup"),
        BytecodeInstruction::AConstNull {} => lit("aconst_null"),
        BytecodeInstruction::AaLoad {} => lit("aaload"),
        BytecodeInstruction::AaStore {} => lit("aastore"),
        BytecodeInstruction::AThrow {} => lit("athrow"),
        BytecodeInstruction::Return {} => lit("return"),
        BytecodeInstruction::IReturn {} => lit("ireturn"),
        BytecodeInstruction::LReturn {} => lit("lreturn"),
        BytecodeInstruction::AReturn {} => lit("areturn"),
        BytecodeInstruction::ArrayLength {} => lit("arraylength"),
        BytecodeInstruction::LDiv {} => lit("ldiv"),
        BytecodeInstruction::IAdd {} => lit("iadd"),
        BytecodeInstruction::ISub {} => lit("isub"),
        BytecodeInstruction::I2L {} => lit("i2l"),
        BytecodeInstruction::LAdd {} => lit("ladd"),
        BytecodeInstruction::LSub {} => lit("lsub"),
        BytecodeInstruction::LMul {} => lit("lmul"),
        BytecodeInstruction::LCmp {} => lit("lcmp"),
        BytecodeInstruction::ALoad { local_variable_index } => short_or_operand_string("aload", *local_variable_index),
        BytecodeInstruction::AStore { local_variable_index } => short_or_operand_string("astore", *local_variable_index),
        BytecodeInstruction::ILoad { local_variable_index } => short_or_operand_string("iload", *local_variable_index),
        BytecodeInstruction::IStore { local_variable_index } => short_or_operand_string("istore", *local_variable_index),
        BytecodeInstruction::LLoad { local_variable_index } => short_or_operand_string("lload", *local_variable_index),
        BytecodeInstruction::LStore { local_variable_index } => short_or_operand_string("lstore", *local_variable_index),
        BytecodeInstruction::Ldc { constant_pool_index } => {
            let mut o = String::new();
            push_char(&mut o, '#');
            push_decimal(&mut o, *constant_pool_index as u64);
            assert(o@ =~= seq!['#'] + decimal(*constant_pool_index as nat));
            with_operand_string("ldc", &o)
        },
        BytecodeInstruction::LdcW { constant_pool_index } => {
            let mut o = String::new();
            push_char(&mut o, '#');
            push_decimal(&mut o, *constant_pool_index as u64);
            assert(o@ =~= seq!['#'] + decimal(*constant_pool_index as nat));
            with_operand_string("ldc_w", &o)
        },
        BytecodeInstruction::Ldc2W { constant_pool_index } => {
            let mut o = String::new();
            push_char(&mut o, '#');
            push_decimal(&mut o, *constant_pool_index as u64);
            assert(o@ =~= seq!['#'] + decimal(*constant_pool_index as nat));
            with_operand_string("ldc2_w", &o)
        },
        BytecodeInstruction::ANewArray { constant_pool_index } => {
            let mut o = String::new();
            push_char(&mut o, '#');
            push_decimal(&mut o, *constant_pool_index as u64);
            assert(o@ =~= seq!['#'] + decimal(*constant_pool_index as nat));
            with_operand_string("anewarray", &o)
        },
        BytecodeInstruction::New { constant_pool_index } => {
            let mut o = String::new();
            push_char(&mut o, '#');
            push_decimal(&mut o, *constant_pool_index as u64);
            assert(o@ =~= seq!['#'] + decimal(*constant_pool_index as nat));
            with_operand_string("new", &o)
        },
        BytecodeInstruction::CheckCast { constant_pool_index } => {
            let mut o = String::new();
            push_char(&mut o, '#');
            push_decimal(&mut o, *constant_pool_index as u64);
            assert(o@ =~= seq!['#'] + decimal(*constant_pool_index as nat));
            with_operand_string("checkcast", &o)
        },
        BytecodeInstruction::GetStatic { field_ref_index } => {
            let mut o = String::new();
            push_char(&mut o, '#');
            push_decimal(&mut o, *field_ref_index as u64);
            assert(o@ =~= seq!['#'] + decimal(*field_ref_index as nat));
            with_operand_string("getstatic", &o)
        },
        BytecodeInstruction::PutStatic { field_ref_index } => {
            let mut o = String::new();
            push_char(&mut o, '#');
            push_decimal(&mut o, *field_ref_index as u64);
            assert(o@ =~= seq!['#'] + decimal(*field_ref_index as nat));
            with_operand_string("putstatic", &o)
        },
        BytecodeInstruction::GetField { field_ref_index } => {
            let mut o = String::new();
            push_char(&mut o, '#');
            push_decimal(&mut o, *field_ref_index as u64);
            assert(o@ =~= seq!['#'] + decimal(*field_ref_index as nat));
            with_operand_string("getfield", &o)
        },
        BytecodeInstruction::PutField { field_ref_index } => {
            let mut o = String::new();
            push_char(&mut o, '#');
            push_decimal(&mut o, *field_ref_index as u64);
            assert(o@ =~= seq!['#'] + decimal(*field_ref_index as nat));
            with_operand_string("putfield", &o)
        },
        BytecodeInstruction::InvokeSpecial { method_ref_index } => {
            let mut o = String::new();
            push_char(&mut o, '#');
            push_decimal(&mut o, *method_ref_index as u64);
            assert(o@ =~= seq!['#'] + decimal(*method_ref_index as nat));
            with_operand_string("invokespecial", &o)
        },
        BytecodeInstruction::InvokeStatic { method_ref_index } => {
            let mut o = String::new();
            push_char(&mut o, '#');
            push_decimal(&mut o, *method_ref_index as u64);
            assert(o@ =~= seq!['#'] + decimal(*method_ref_index as nat));
            with_operand_string("invokestatic", &o)
        },
        BytecodeInstruction::InvokeVirtual { method_ref_index } => {
            let mut o = String::new();
            push_char(&mut o, '#');
            push_decimal(&mut o, *method_ref_index as u64);
            assert(o@ =~= seq!['#'] + decimal(*method_ref_index as nat));
            with_operand_string("invokevirtual", &o)
        },
        BytecodeInstruction::IfIcmpEq { offset } => {
            proof { assert(branch_offsets(*instruction)[0] == *offset as int); }
            let t = add_offset(position, *offset as i64);
            with_operand_string("if_icmpeq", &decimal_string(t as u64))
        },
        BytecodeInstruction::IfIcmpNe { offset } => {
            proof { assert(branch_offsets(*instruction)[0] == *offset as int); }
            let t = add_offset(position, *offset as i64);
            with_operand_string("if_icmpne", &decimal_string(t as u64))
        },
        BytecodeInstruction::IfIcmpLt { offset } => {
            proof { assert(branch_offsets(*instruction)[0] == *offset as int); }
            let t = add_offset(position, *offset as i64);
            with_operand_string("if_icmplt", &decimal_string(t as u64))
        },
        BytecodeInstruction::IfIcmpGe { offset } => {
            proof { assert(branch_offsets(*instruction)[0] == *offset as int); }
            let t = add_offset(position, *offset as i64);
            with_operand_string("if_icmpge", &decimal_string(t as u64))
        },
        BytecodeInstruction::IfIcmpGt { offset } => {
            proof { assert(branch_offsets(*instruction)[0] == *offset as int); }
            let t = add_offset(position, *offset as i64);
            with_operand_string("if_icmpgt", &decimal_string(t as u64))
        },
        BytecodeInstruction::IfIcmpLe { offset } => {
            proof { assert(branch_offsets(*instruction)[0] == *offset as int); }
            let t = add_offset(position, *offset as i64);
            with_operand_string("if_icmple", &decimal_string(t as u64))
        },
        BytecodeInstruction::IfEq { offset } => {
            proof { assert(branch_offsets(*instruction)[0] == *offset as int); }
            let t = add_offset(position, *offset as i64);
            with_operand_string("ifeq", &decimal_string(t as u64))
        },
        BytecodeInstruction::IfNe { offset } => {
            proof { assert(branch_offsets(*instruction)[0] == *offset as int); }
            let t = add_offset(position, *offset as i64);
            with_operand_string("ifne", &decimal_string(t as u64))
        },
        BytecodeInstruction::IfLt { offset } => {
            proof { assert(branch_offsets(*instruction)[0] == *offset as int); }
            let t = add_offset(position, *offset as i64);
            with_operand_string("iflt", &decimal_string(t as u64))
        },
        BytecodeInstruction::IfGe { offset } => {
            proof { assert(branch_offsets(*instruction)[0] == *offset as int); }
            let t = add_offset(position, *offset as i64);
            with_operand_string("ifge", &decimal_string(t as u64))
        },
        BytecodeInstruction::IfGt { offset } => {
            proof { assert(branch_offsets(*instruction)[0] == *offset as int); }
            let t = add_offset(position, *offset as i64);
            with_operand_string("ifgt", &decimal_string(t as u64))
        },
        BytecodeInstruction::IfLe { offset } => {
            proof { assert(branch_offsets(*instruction)[0] == *offset as int); }
            let t = add_offset(position, *offset as i64);
            with_operand_string("ifle", &decimal_string(t as u64))
        },
        BytecodeInstruction::IfNonNull { offset } => {
            proof { assert(branch_offsets(*instruction)[0] == *offset as int); }
            let t = add_offset(position, *offset as i64);
            with_operand_string("ifnonnull", &decimal_string(t as u64))
        },
        BytecodeInstruction::GoTo { offset } => {
            proof { assert(branch_offsets(*instruction)[0] == *offset as int); }
            let t = add_offset(position, *offset as i64);
            with_operand_string("goto", &decimal_string(t as u64))
        },
        BytecodeInstruction::IConst { constant } => {
            if *constant == -1 {
                lit("iconst_m1")
            } else if 0 <= *constant && *constant <= 5 {
                let mut s = lit("iconst_");
                push_decimal(&mut s, *constant as u64);
                s
            } else {
                with_operand_string("iconst", &signed_decimal_string(*constant as i64))
            }
        },
        BytecodeInstruction::LConst { constant } => {
            if 0 <= *constant && *constant <= 1 {
                let mut s = lit("lconst_");
                push_decimal(&mut s, *constant as u64);
                s
            } else {
                with_operand_string("lconst", &signed_decimal_string(*constant as i64))
            }
        },
        BytecodeInstruction::BiPush { immediate } => with_operand_string("bipush", &signed_decimal_string(*immediate as i64)),
        BytecodeInstruction::IInc { index, constant } => {
            let mut o = decimal_string(*index as u64);
            push_str(&mut o, ", ");
            push_signed_decimal(&mut o, *constant as i64);
            with_operand_string("iinc", &o)
        },
        BytecodeInstruction::InvokeInterface { constant_pool_index, count } => {
            let mut o = String::new();
            push_char(&mut o, '#');
            push_decimal(&mut o, *constant_pool_index as u64);
            push_str(&mut o, ",  ");
            push_decimal(&mut o, *count as u64);
            assert(o@ =~= seq!['#'] + decimal(*constant_pool_index as nat) + ",  "@ + decimal(*count as nat));
            with_operand_string("invokeinterface", &o)
        },
        BytecodeInstruction::InvokeDynamic { constant_pool_index } => {
            let mut o = String::new();
            push_char(&mut o, '#');
            push_decimal(&mut o, *constant_pool_index as u64);
            push_str(&mut o, ",  0");
            assert(o@ =~= seq!['#'] + decimal(*constant_pool_index as nat) + ",  0"@);
            with_operand_string("invokedynamic", &o)
        },
        BytecodeInstruction::TableSwitch { default, low, offsets } => {
            proof {
                let bo = branch_offsets(*instruction);
                assert(bo[0] == *default as int);
                assert forall|k: int| 0 <= k < offsets@.len() implies 0 <= p + #[trigger] offsets@[k] <= u32::MAX by {
                    assert(bo[k + 1] == offsets@[k]);
                }
            }
            table_switch_text(p, *default, *low, offsets)
        },
        BytecodeInstruction::LookupSwitch { default, pairs } => {
            proof {
                let bo = branch_offsets(*instruction);
                assert(bo[0] == *default as int);
                assert forall|k: int| 0 <= k < pairs@.len() implies 0 <= p + #[trigger] pairs@[k].offset <= u32::MAX by {
                    assert(bo[k + 1] == pairs@[k].offset);
                }
            }
            lookup_switch_text(p, *default, pairs)
        },
    }
}

/// `prefix` before a text result; errors pass through.
pub open spec fn prefixed(prefix: Seq<char>, r: Result<Seq<char>, ClassFileError>) -> Result<Seq<char>, ClassFileError> {
    match r {
        Ok(t) => Ok(prefix + t),
        Err(e) => Err(e),
    }
}

/// A text result seen as an optional comment.
pub open spec fn some_text(r: Result<Seq<char>, ClassFileError>) -> Result<Option<Seq<char>>, ClassFileError> {
    match r {
        Ok(t) => Ok(Some(t)),
        Err(e) => Err(e),
    }
}

/// An optional comment seen through the characters of its string.
pub open spec fn as_comment(r: Result<Option<String>, ClassFileError>) -> Result<Option<Seq<char>>, ClassFileError> {
    match r {
        Ok(Some(s)) => Ok(Some(s@)),
        Ok(None) => Ok(None),
        Err(e) => Err(e),
    }
}

/// The signed value of a `Long` entry's two halves.
pub open spec fn long_value(high: u32, low: u32) -> int {
    let u = high * 4294967296 + low;
    if u >= 9223372036854775808 { u - 18446744073709551616 } else { u }
}

/// What javap shows for a constant that `ldc` and its wide forms load.
pub open spec fn constant_text(cp: Seq<ConstantPoolInfo>, i: u16) -> Result<Seq<char>, ClassFileError> {
    match entry_of(cp, i) {
        Ok(ConstantPoolInfo::String { string_index }) => match utf8_content(cp, string_index) {
            Ok(t) => Ok(if is_blank(t) { "String"@ } else { "String "@ + t }),
            Err(e) => Err(e),
        },
        Ok(ConstantPoolInfo::Long { high_bytes, low_bytes }) => Ok(
            "long "@ + signed_decimal(long_value(high_bytes, low_bytes)) + seq!['l'],
        ),
        Ok(ConstantPoolInfo::Integer { bytes }) => Ok("int "@ + signed_decimal(signed32(bytes as int))),
        Ok(ConstantPoolInfo::Class { name_index }) => prefixed("class "@, utf8_content(cp, name_index)),
        Ok(_) => Err(ClassFileError::WrongEntryType { index: i }),
        Err(e) => Err(e),
    }
}

/// `name:descriptor` for a member of the class itself, `Class.name:descriptor` otherwise.
pub open spec fn member_text(cp: Seq<ConstantPoolInfo>, this_class: u16, c: u16, nt: u16) -> Result<Seq<char>, ClassFileError> {
    if c == this_class {
        name_and_type(cp, nt)
    } else {
        member_ref_text(cp, c, nt)
    }
}

/// The comment of a field access (`fields`) or an invocation: the kind of the reference,
/// then the member.
pub open spec fn reference_comment(cp: Seq<ConstantPoolInfo>, this_class: u16, i: u16, fields: bool) -> Result<Seq<char>, ClassFileError> {
    match entry_of(cp, i) {
        Ok(ConstantPoolInfo::FieldRef { class_index, name_and_type_index }) => if fields {
            prefixed("Field "@, member_text(cp, this_class, class_index, name_and_type_index))
        } else {
            Err(ClassFileError::WrongEntryType { index: i })
        },
        Ok(ConstantPoolInfo::MethodRef { class_index, name_and_type_index }) => if !fields {
            prefixed("Method "@, member_text(cp, this_class, class_index, name_and_type_index))
        } else {
            Err(ClassFileError::WrongEntryType { index: i })
        },
        Ok(ConstantPoolInfo::InterfaceMethodRef { class_index, name_and_type_index }) => if !fields {
            prefixed("InterfaceMethod "@, member_text(cp, this_class, class_index, name_and_type_index))
        } else {
            Err(ClassFileError::WrongEntryType { index: i })
        },
        Ok(_) => Err(ClassFileError::WrongEntryType { index: i }),
        Err(e) => Err(e),
    }
}

/// The `//` comment that javap shows after an instruction, if it has one.
pub open spec fn comment_of(cp: Seq<ConstantPoolInfo>, this_class: u16, ins: BytecodeInstruction) -> Result<Option<Seq<char>>, ClassFileError> {
    match ins {
        BytecodeInstruction::Ldc { constant_pool_index } => some_text(constant_text(cp, constant_pool_index as u16)),
        BytecodeInstruction::LdcW { constant_pool_index } => some_text(constant_text(cp, constant_pool_index)),
        BytecodeInstruction::Ldc2W { constant_pool_index } => some_text(constant_text(cp, constant_pool_index)),
        BytecodeInstruction::ANewArray { constant_pool_index } => some_text(prefixed("class "@, class_name(cp, constant_pool_index))),
        BytecodeInstruction::New { constant_pool_index } => some_text(prefixed("class "@, class_name(cp, constant_pool_index))),
        BytecodeInstruction::CheckCast { constant_pool_index } => some_text(prefixed("class "@, class_name(cp, constant_pool_index))),
        BytecodeInstruction::GetStatic { field_ref_index } => some_text(reference_comment(cp, this_class, field_ref_index, true)),
        BytecodeInstruction::PutStatic { field_ref_index } => some_text(reference_comment(cp, this_class, field_ref_index, true)),
        BytecodeInstruction::GetField { field_ref_index } => some_text(reference_comment(cp, this_class, field_ref_index, true)),
        BytecodeInstruction::PutField { field_ref_index } => some_text(reference_comment(cp, this_class, field_ref_index, true)),
        BytecodeInstruction::InvokeSpecial { method_ref_index } => some_text(reference_comment(cp, this_class, method_ref_index, false)),
        BytecodeInstruction::InvokeStatic { method_ref_index } => some_text(reference_comment(cp, this_class, method_ref_index, false)),
        BytecodeInstruction::InvokeVirtual { method_ref_index } => some_text(reference_comment(cp, this_class, method_ref_index, false)),
        BytecodeInstruction::InvokeInterface { constant_pool_index, .. } => some_text(reference_comment(cp, this_class, constant_pool_index, false)),
        BytecodeInstruction::InvokeDynamic { constant_pool_index } => some_text(prefixed("InvokeDynamic "@, invoke_dynamic(cp, constant_pool_index))),
        _ => Ok(None),
    }
}

fn prefix_result(prefix: &str, r: Result<String, ClassFileError>) -> (out: Result<String, ClassFileError>)
    ensures
        as_text(out) == prefixed(prefix@, as_text(r)),
{
    let t = r?;
    let mut s = lit(prefix);
    push_str(&mut s, t.as_str());
    Ok(s)
}

fn some_result(r: Result<String, ClassFileError>) -> (out: Result<Option<String>, ClassFileError>)
    ensures
        as_comment(out) == some_text(as_text(r)),
{
    Ok(Some(r?))
}

fn long_text(high: u32, low: u32) -> (r: i64)
    ensures
        r == long_value(high, low),
{
    let u: u64 = high as u64 * 4294967296 + low as u64;
    if u >= 9223372036854775808 {
        -((18446744073709551615 - u) as i64) - 1
    } else {
        u as i64
    }
}

/// What javap shows for the constant at `constant_pool_index` that `ldc` loads.
pub fn get_constant_string(cp: &ConstantPool, constant_pool_index: u16) -> (r: Result<String, ClassFileError>)
    ensures
        as_text(r) == constant_text(cp.entries@, constant_pool_index),
{
    match cp.entry(constant_pool_index)? {
        ConstantPoolInfo::String { string_index } => {
            let t = cp.get_utf8_content(*string_index)?;
            if blank(t.as_str()) {
                Ok(lit("String"))
            } else {
                prefix_result("String ", Ok(t))
            }
        },
        ConstantPoolInfo::Long { high_bytes, low_bytes } => {
            let mut s = lit("long ");
            push_signed_decimal(&mut s, long_text(*high_bytes, *low_bytes));
            push_char(&mut s, 'l');
            assert(s@ =~= "long "@ + signed_decimal(long_value(*high_bytes, *low_bytes)) + seq!['l']);
            Ok(s)
        },
        ConstantPoolInfo::Integer { bytes } => {
            let v: i64 = if *bytes >= 2147483648 { *bytes as i64 - 4294967296 } else { *bytes as i64 };
            let mut s = lit("int ");
            push_signed_decimal(&mut s, v);
            assert(v == signed32(*bytes as int));
            assert(s@ =~= "int "@ + signed_decimal(signed32(*bytes as int)));
            Ok(s)
        },
        ConstantPoolInfo::Class { name_index } => prefix_result("class ", cp.get_utf8_content(*name_index)),
        _ => Err(ClassFileError::WrongEntryType { index: constant_pool_index }),
    }
}

/// `Method` or `InterfaceMethod` for an entry that a method invocation names.
pub fn get_method_type(cpe: &ConstantPoolInfo) -> (r: Option<String>)
    ensures
        r is Some <==> (cpe is MethodRef || cpe is InterfaceMethodRef),
        cpe is MethodRef ==> r->Some_0@ == "Method"@,
        cpe is InterfaceMethodRef ==> r->Some_0@ == "InterfaceMethod"@,
{
    match cpe {
        ConstantPoolInfo::MethodRef { .. } => Some(lit("Method")),
        ConstantPoolInfo::InterfaceMethodRef { .. } => Some(lit("InterfaceMethod")),
        _ => None,
    }
}

fn member_string(cp: &ConstantPool, this_class: u16, c: u16, nt: u16) -> (r: Result<String, ClassFileError>)
    ensures
        as_text(r) == member_text(cp.entries@, this_class, c, nt),
{
    if c == this_class {
        cp.get_name_and_type(nt)
    } else {
        cp.get_method_ref_string(c, nt)
    }
}

fn reference_comment_string(cp: &ConstantPool, this_class: u16, i: u16, fields: bool) -> (r: Result<String, ClassFileError>)
    ensures
        as_text(r) == reference_comment(cp.entries@, this_class, i, fields),
{
    match cp.entry(i)? {
        ConstantPoolInfo::FieldRef { class_index, name_and_type_index } => {
            if fields {
                prefix_result("Field ", member_string(cp, this_class, *class_index, *name_and_type_index))
            } else {
                Err(ClassFileError::WrongEntryType { index: i })
            }
        },
        ConstantPoolInfo::MethodRef { class_index, name_and_type_index } => {
            if !fields {
                prefix_result("Method ", member_string(cp, this_class, *class_index, *name_and_type_index))
            } else {
                Err(ClassFileError::WrongEntryType { index: i })
            }
        },
        ConstantPoolInfo::InterfaceMethodRef { class_index, name_and_type_index } => {
            if !fields {
                prefix_result("InterfaceMethod ", member_string(cp, this_class, *class_index, *name_and_type_index))
            } else {
                Err(ClassFileError::WrongEntryType { index: i })
            }
        },
        _ => Err(ClassFileError::WrongEntryType { index: i }),
    }
}

/// The `//` comment that javap shows after `instruction`, if any: the constant, class,
/// field or method that it refers to. Members of `this_class` show without the class name.
pub fn get_comment(cp: &ConstantPool, this_class: u16, instruction: &BytecodeInstruction) -> (r: Result<Option<String>, ClassFileError>)
    ensures
        as_comment(r) == comment_of(cp.entries@, this_class, *instruction),
{
    match instruction {
        BytecodeInstruction::Ldc { constant_pool_index } => some_result(get_constant_string(cp, *constant_pool_index as u16)),
        BytecodeInstruction::LdcW { constant_pool_index } => some_result(get_constant_string(cp, *constant_pool_index)),
        BytecodeInstruction::Ldc2W { constant_pool_index } => some_result(get_constant_string(cp, *constant_pool_index)),
        BytecodeInstruction::ANewArray { constant_pool_index } => some_result(prefix_result("class ", cp.get_class_name(*constant_pool_index))),
        BytecodeInstruction::New { constant_pool_index } => some_result(prefix_result("class ", cp.get_class_name(*constant_pool_index))),
        BytecodeInstruction::CheckCast { constant_pool_index } => some_result(prefix_result("class ", cp.get_class_name(*constant_pool_index))),
        BytecodeInstruction::GetStatic { field_ref_index } => some_result(reference_comment_string(cp, this_class, *field_ref_index, true)),
        BytecodeInstruction::PutStatic { field_ref_index } => some_result(reference_comment_string(cp, this_class, *field_ref_index, true)),
        BytecodeInstruction::GetField { field_ref_index } => some_result(reference_comment_string(cp, this_class, *field_ref_index, true)),
        BytecodeInstruction::PutField { field_ref_index } => some_result(reference_comment_string(cp, this_class, *field_ref_index, true)),
        BytecodeInstruction::InvokeSpecial { method_ref_index } => some_result(reference_comment_string(cp, this_class, *method_ref_index, false)),
        BytecodeInstruction::InvokeStatic { method_ref_index } => some_result(reference_comment_string(cp, this_class, *method_ref_index, false)),
        BytecodeInstruction::InvokeVirtual { method_ref_index } => some_result(reference_comment_string(cp, this_class, *method_ref_index, false)),
        BytecodeInstruction::InvokeInterface { constant_pool_index, .. } => some_result(reference_comment_string(cp, this_class, *constant_pool_index, false)),
        BytecodeInstruction::InvokeDynamic { constant_pool_index } => some_result(prefix_result("InvokeDynamic ", cp.get_invoke_dynamic(*constant_pool_index))),
        _ => Ok(None),
    }
}

/// What javap shows for a verification type in a stack-map frame.
pub open spec fn verification_text(cp: Seq<ConstantPoolInfo>, v: VerificationTypeInfo) -> Result<Seq<char>, ClassFileError> {
    match v {
        VerificationTypeInfo::TopVariable => Ok("top"@),
        VerificationTypeInfo::IntegerVariable => Ok("int"@),
        VerificationTypeInfo::FloatVariable => Ok("float"@),
        VerificationTypeInfo::LongVariable => Ok("long"@),
        VerificationTypeInfo::DoubleVariable => Ok("double"@),
        VerificationTypeInfo::NullVariable => Ok("null"@),
        VerificationTypeInfo::UninitializedThisVariable => Ok("this"@),
        VerificationTypeInfo::ObjectVariable { constant_pool_index } => prefixed("class "@, class_name(cp, constant_pool_index)),
        VerificationTypeInfo::UninitializedVariable { offset } => Ok("uninitialized "@ + decimal(offset as nat)),
    }
}

pub fn get_verification_type_info_string(cp: &ConstantPool, vti: &VerificationTypeInfo) -> (r: Result<String, ClassFileError>)
    ensures
        as_text(r) == verification_text(cp.entries@, *vti),
{
    match vti {
        VerificationTypeInfo::TopVariable => Ok(lit("top")),
        VerificationTypeInfo::IntegerVariable => Ok(lit("int")),
        VerificationTypeInfo::FloatVariable => Ok(lit("float")),
        VerificationTypeInfo::LongVariable => Ok(lit("long")),
        VerificationTypeInfo::DoubleVariable => Ok(lit("double")),
        VerificationTypeInfo::NullVariable => Ok(lit("null")),
        VerificationTypeInfo::UninitializedThisVariable => Ok(lit("this")),
        VerificationTypeInfo::ObjectVariable { constant_pool_index } => prefix_result("class ", cp.get_class_name(*constant_pool_index)),
        VerificationTypeInfo::UninitializedVariable { offset } => {
            let mut s = lit("uninitialized ");
            push_decimal(&mut s, *offset as u64);
            Ok(s)
        },
    }
}

/// The columns of the constant-pool listing, which depend on the number of digits of the
/// largest index.
#[derive(Debug, Clone, Copy, PartialEq, Eq, Structural)]
pub struct PoolLayout {
    /// Where `#index` ends (right-aligned).
    pub index_width: usize,
    /// Where the operands (`#x`, `#x.#y`) start.
    pub info_start: usize,
    /// Where the `//` comment starts.
    pub comment_start: usize,
}

/// The layout for a pool whose largest index is `n`.
pub open spec fn layout_for(n: nat) -> PoolLayout {
    let d = decimal(n).len();
    PoolLayout {
        index_width: (3 + d) as usize,
        info_start: (25 + d) as usize,
        comment_start: (39 + d) as usize,
    }
}

pub fn pool_layout(cp: &ConstantPool) -> (r: PoolLayout)
    requires
        cp.entries@.len() <= u16::MAX,
    ensures
        r == layout_for(cp.entries@.len()),
{
    let n = decimal_string(cp.len() as u64);
    let d = n.as_str().unicode_len();
    proof {
        lemma_decimal_len_bound(cp.entries@.len());
    }
    PoolLayout { index_width: 3 + d, info_start: 25 + d, comment_start: 39 + d }
}

proof fn lemma_decimal_len_bound(n: nat)
    requires
        n <= 65535,
    ensures
        decimal(n).len() <= n + 1,
    decreases n,
{
    if n >= 10 {
        lemma_decimal_len_bound(n / 10);
    }
}

/// The tag word that the listing shows for an entry.
pub open spec fn tag_name(e: ConstantPoolInfo) -> Seq<char> {
    match e {
        ConstantPoolInfo::Utf8 { .. } => "Utf8"@,
        ConstantPoolInfo::Integer { .. } => "Integer"@,
        ConstantPoolInfo::Float { .. } => "Float"@,
        ConstantPoolInfo::Long { .. } => "Long"@,
        ConstantPoolInfo::Double { .. } => "Double"@,
        ConstantPoolInfo::String { .. } => "String"@,
        ConstantPoolInfo::Class { .. } => "Class"@,
        ConstantPoolInfo::FieldRef { .. } => "Fieldref"@,
        ConstantPoolInfo::MethodRef { .. } => "Methodref"@,
        ConstantPoolInfo::InterfaceMethodRef { .. } => "InterfaceMethodref"@,
        ConstantPoolInfo::NameAndType { .. } => "NameAndType"@,
        ConstantPoolInfo::MethodType { .. } => "MethodType"@,
        ConstantPoolInfo::MethodHandle { .. } => "MethodHandle"@,
        ConstantPoolInfo::Dynamic { .. } => "Dynamic"@,
        ConstantPoolInfo::InvokeDynamic { .. } => "InvokeDynamic"@,
        ConstantPoolInfo::Module { .. } => "Module"@,
        ConstantPoolInfo::Package { .. } => "Package"@,
        ConstantPoolInfo::Null { .. } => ""@,
    }
}

fn tag_name_str(e: &ConstantPoolInfo) -> (r: &'static str)
    ensures
        r@ == tag_name(*e),
{
    match e {
        ConstantPoolInfo::Utf8 { .. } => "Utf8",
        ConstantPoolInfo::Integer { .. } => "Integer",
        ConstantPoolInfo::Float { .. } => "Float",
        ConstantPoolInfo::Long { .. } => "Long",
        ConstantPoolInfo::Double { .. } => "Double",
        ConstantPoolInfo::String { .. } => "String",
        ConstantPoolInfo::Class { .. } => "Class",
        ConstantPoolInfo::FieldRef { .. } => "Fieldref",
        ConstantPoolInfo::MethodRef { .. } => "Methodref",
        ConstantPoolInfo::InterfaceMethodRef { .. } => "InterfaceMethodref",
        ConstantPoolInfo::NameAndType { .. } => "NameAndType",
        ConstantPoolInfo::MethodType { .. } => "MethodType",
        ConstantPoolInfo::MethodHandle { .. } => "MethodHandle",
        ConstantPoolInfo::Dynamic { .. } => "Dynamic",
        ConstantPoolInfo::InvokeDynamic { .. } => "InvokeDynamic",
        ConstantPoolInfo::Module { .. } => "Module",
        ConstantPoolInfo::Package { .. } => "Package",
        ConstantPoolInfo::Null { .. } => "",
    }
}

/// `#i = Tag`, the index right-aligned.
pub open spec fn entry_head(i: u16, e: ConstantPoolInfo, l: PoolLayout) -> Seq<char> {
    pad_start(seq!['#'] + decimal(i as nat), l.index_width as int) + " = "@ + tag_name(e)
}

/// `Class.name:descriptor` of whatever member reference is at `i`.
pub open spec fn any_member_ref(cp: Seq<ConstantPoolInfo>, i: u16) -> Result<Seq<char>, ClassFileError> {
    match entry_of(cp, i) {
        Ok(ConstantPoolInfo::FieldRef { class_index, name_and_type_index }) => member_ref_text(cp, class_index, name_and_type_index),
        Ok(ConstantPoolInfo::MethodRef { class_index, name_and_type_index }) => member_ref_text(cp, class_index, name_and_type_index),
        Ok(ConstantPoolInfo::InterfaceMethodRef { class_index, name_and_type_index }) => member_ref_text(cp, class_index, name_and_type_index),
        Ok(_) => Err(ClassFileError::WrongEntryType { index: i }),
        Err(e) => Err(e),
    }
}

/// A line with operands and a comment: the head, the operands from the info column, then
/// `sep` and the comment from the comment column.
pub open spec fn commented(head: Seq<char>, l: PoolLayout, operands: Seq<char>, sep: Seq<char>, comment: Result<Seq<char>, ClassFileError>) -> Result<Option<Seq<char>>, ClassFileError> {
    some_text(prefixed(pad_end(pad_end(head, l.info_start as int) + operands, l.comment_start as int) + sep, comment))
}

/// `#a` followed by `sep` and `#b`.
pub open spec fn index_pair(a: u16, sep: char, b: u16) -> Seq<char> {
    seq!['#'] + decimal(a as nat) + seq![sep, '#'] + decimal(b as nat)
}

/// The listing line of the entry at index `i`; `None` for the slot after a `Long`/`Double`.
/// A `Float`/`Double` line stops where its value would start.
pub open spec fn pool_line(cp: Seq<ConstantPoolInfo>, i: u16, l: PoolLayout) -> Result<Option<Seq<char>>, ClassFileError> {
    let e = cp[i - 1];
    let head = entry_head(i, e, l);
    match e {
        ConstantPoolInfo::Null {} => Ok(None),
        ConstantPoolInfo::Utf8 { bytes } => if vstd::utf8::valid_utf8(bytes@) {
            let c = escape(vstd::utf8::decode_utf8(bytes@));
            Ok(Some(if is_blank(c) { head } else { pad_end(head, l.info_start as int) + c }))
        } else {
            Err(ClassFileError::InvalidUtf8 { index: i })
        },
        ConstantPoolInfo::Integer { bytes } => Ok(Some(pad_end(head, l.info_start as int) + signed_decimal(signed32(bytes as int)))),
        ConstantPoolInfo::Float { .. } => Ok(Some(pad_end(head, l.info_start as int))),
        ConstantPoolInfo::Double { .. } => Ok(Some(pad_end(head, l.info_start as int))),
        ConstantPoolInfo::Long { high_bytes, low_bytes } => Ok(Some(pad_end(head, l.info_start as int)
            + signed_decimal(long_value(high_bytes, low_bytes)) + seq!['l'])),
        ConstantPoolInfo::String { string_index } => match utf8_content(cp, string_index) {
            Ok(t) => Ok(Some(pad_end(pad_end(head, l.info_start as int) + seq!['#'] + decimal(string_index as nat), l.comment_start as int)
                + if is_blank(t) { "//"@ } else { "// "@ + t })),
            Err(e) => Err(e),
        },
        ConstantPoolInfo::Class { name_index } => commented(head, l, seq!['#'] + decimal(name_index as nat), "// "@, utf8_content(cp, name_index)),
        ConstantPoolInfo::FieldRef { class_index, name_and_type_index } => commented(head, l, index_pair(class_index, '.', name_and_type_index), "// "@, member_ref_text(cp, class_index, name_and_type_index)),
        ConstantPoolInfo::MethodRef { class_index, name_and_type_index } => commented(head, l, index_pair(class_index, '.', name_and_type_index), "// "@, member_ref_text(cp, class_index, name_and_type_index)),
        ConstantPoolInfo::InterfaceMethodRef { class_index, name_and_type_index } => commented(head, l, index_pair(class_index, '.', name_and_type_index), "// "@, member_ref_text(cp, class_index, name_and_type_index)),
        ConstantPoolInfo::NameAndType { name_index, descriptor_index } => commented(head, l, index_pair(name_index, ':', descriptor_index), "// "@, name_and_type_text(cp, name_index, descriptor_index)),
        ConstantPoolInfo::MethodType { descriptor_index } => commented(head, l, seq!['#'] + decimal(descriptor_index as nat), "//  "@, utf8_content(cp, descriptor_index)),
        ConstantPoolInfo::MethodHandle { reference_kind, reference_index } => commented(head, l, decimal(kind_code(reference_kind) as nat) + ":#"@ + decimal(reference_index as nat), "// "@, prefixed(spec_java_repr(reference_kind) + seq![' '], any_member_ref(cp, reference_index))),
        ConstantPoolInfo::Dynamic { bootstrap_method_attr_index, name_and_type_index } => commented(head, l, index_pair(bootstrap_method_attr_index, ':', name_and_type_index), "// "@, invoke_dynamic_text(cp, bootstrap_method_attr_index, name_and_type_index)),
        ConstantPoolInfo::InvokeDynamic { bootstrap_method_attr_index, name_and_type_index } => commented(head, l, index_pair(bootstrap_method_attr_index, ':', name_and_type_index), "// "@, invoke_dynamic_text(cp, bootstrap_method_attr_index, name_and_type_index)),
        ConstantPoolInfo::Module { name_index } => commented(head, l, seq!['#'] + decimal(name_index as nat), "// "@, utf8_content(cp, name_index)),
        ConstantPoolInfo::Package { name_index } => commented(head, l, seq!['#'] + decimal(name_index as nat), "// "@, utf8_content(cp, name_index)),
    }
}

fn any_member_ref_string(cp: &ConstantPool, i: u16) -> (r: Result<String, ClassFileError>)
    ensures
        as_text(r) == any_member_ref(cp.entries@, i),
{
    match cp.entry(i)? {
        ConstantPoolInfo::FieldRef { class_index, name_and_type_index } => cp.get_method_ref_string(*class_index, *name_and_type_index),
        ConstantPoolInfo::MethodRef { class_index, name_and_type_index } => cp.get_method_ref_string(*class_index, *name_and_type_index),
        ConstantPoolInfo::InterfaceMethodRef { class_index, name_and_type_index } => cp.get_method_ref_string(*class_index, *name_and_type_index),
        _ => Err(ClassFileError::WrongEntryType { index: i }),
    }
}

fn index_string(a: u16) -> (r: String)
    ensures
        r@ == seq!['#'] + decimal(a as nat),
{
    let mut s = String::new();
    push_char(&mut s, '#');
    push_decimal(&mut s, a as u64);
    assert(s@ =~= seq!['#'] + decimal(a as nat));
    s
}

fn index_pair_string(a: u16, sep: char, b: u16) -> (r: String)
    ensures
        r@ == index_pair(a, sep, b),
{
    let mut s = index_string(a);
    push_char(&mut s, sep);
    push_char(&mut s, '#');
    push_decimal(&mut s, b as u64);
    assert(s@ =~= index_pair(a, sep, b));
    s
}

fn commented_string(head: &String, l: PoolLayout, operands: &String, sep: &str, comment: Result<String, ClassFileError>) -> (r: Result<Option<String>, ClassFileError>)
    ensures
        as_comment(r) == commented(head@, l, operands@, sep@, as_text(comment)),
{
    let c = comment?;
    let mut s = String::new();
    push_str(&mut s, head.as_str());
    pad_end_in_place(&mut s, l.info_start);
    push_str(&mut s, operands.as_str());
    pad_end_in_place(&mut s, l.comment_start);
    push_str(&mut s, sep);
    push_str(&mut s, c.as_str());
    proof {
        assert(head@ =~= Seq::<char>::empty() + head@);
    }
    Ok(Some(s))
}

fn handle_comment(cp: &ConstantPool, kind: ReferenceKind, i: u16) -> (r: Result<String, ClassFileError>)
    ensures
        as_text(r) == prefixed(spec_java_repr(kind) + seq![' '], any_member_ref(cp.entries@, i)),
{
    let t = any_member_ref_string(cp, i)?;
    let mut s = java_repr(kind);
    push_char(&mut s, ' ');
    push_str(&mut s, t.as_str());
    assert(s@ =~= spec_java_repr(kind) + seq![' '] + t@);
    Ok(s)
}

#[verifier::rlimit(40)]
fn value_line(cp: &ConstantPool, cp_index: u16, l: PoolLayout, head: String) -> (r: Result<Option<String>, ClassFileError>)
    requires
        1 <= cp_index <= cp.entries@.len(),
        head@ == entry_head(cp_index, cp.entries@[cp_index - 1], l),
        !(cp.entries@[cp_index - 1] is Class || cp.entries@[cp_index - 1] is FieldRef || cp.entries@[cp_index - 1] is MethodRef
            || cp.entries@[cp_index - 1] is InterfaceMethodRef || cp.entries@[cp_index - 1] is NameAndType || cp.entries@[cp_index - 1] is MethodType
            || cp.entries@[cp_index - 1] is MethodHandle || cp.entries@[cp_index - 1] is Dynamic || cp.entries@[cp_index - 1] is InvokeDynamic
            || cp.entries@[cp_index - 1] is Module || cp.entries@[cp_index - 1] is Package),
    ensures
        as_comment(r) == pool_line(cp.entries@, cp_index, l),
{
    let e = &cp.entries[(cp_index - 1) as usize];
    let mut head = head;
    let ghost h0 = head@;
    match e {
        ConstantPoolInfo::Null {} => Ok(None),
        ConstantPoolInfo::Utf8 { bytes } => match convert_utf8(bytes.as_slice()) {
            Some(c) => {
                if blank(c.as_str()) {
                    Ok(Some(head))
                } else {
                    pad_end_in_place(&mut head, l.info_start);
                    push_str(&mut head, c.as_str());
                    assert(head@ =~= pad_end(h0, l.info_start as int) + c@);
                    Ok(Some(head))
                }
            },
            None => Err(ClassFileError::InvalidUtf8 { index: cp_index }),
        },
        ConstantPoolInfo::Integer { bytes } => {
            let v: i64 = if *bytes >= 2147483648 { *bytes as i64 - 4294967296 } else { *bytes as i64 };
            pad_end_in_place(&mut head, l.info_start);
            push_signed_decimal(&mut head, v);
            assert(v == signed32(*bytes as int));
            assert(head@ =~= pad_end(h0, l.info_start as int) + signed_decimal(signed32(*bytes as int)));
            Ok(Some(head))
        },
        ConstantPoolInfo::Float { .. } => {
            pad_end_in_place(&mut head, l.info_start);
            Ok(Some(head))
        },
        ConstantPoolInfo::Double { .. } => {
            pad_end_in_place(&mut head, l.info_start);
            Ok(Some(head))
        },
        ConstantPoolInfo::Long { high_bytes, low_bytes } => {
            pad_end_in_place(&mut head, l.info_start);
            push_signed_decimal(&mut head, long_text(*high_bytes, *low_bytes));
            push_char(&mut head, 'l');
            assert(head@ =~= pad_end(h0, l.info_start as int) + signed_decimal(long_value(*high_bytes, *low_bytes)) + seq!['l']);
            Ok(Some(head))
        },
        ConstantPoolInfo::String { string_index } => {
            let t = cp.get_utf8_content(*string_index)?;
            pad_end_in_place(&mut head, l.info_start);
            push_str(&mut head, index_string(*string_index).as_str());
            pad_end_in_place(&mut head, l.comment_start);
            let ghost h1 = head@;
            assert(h1 == pad_end(pad_end(h0, l.info_start as int) + seq!['#'] + decimal(*string_index as nat), l.comment_start as int));
            if blank(t.as_str()) {
                push_str(&mut head, "//");
            } else {
                push_str(&mut head, "// ");
                push_str(&mut head, t.as_str());
                assert(head@ =~= h1 + ("// "@ + t@));
            }
            Ok(Some(head))
        },
        _ => Err(ClassFileError::WrongEntryType { index: cp_index }),
    }
}

#[verifier::rlimit(40)]
fn reference_line(cp: &ConstantPool, cp_index: u16, l: PoolLayout, head: String) -> (r: Result<Option<String>, ClassFileError>)
    requires
        1 <= cp_index <= cp.entries@.len(),
        head@ == entry_head(cp_index, cp.entries@[cp_index - 1], l),
        cp.entries@[cp_index - 1] is Class || cp.entries@[cp_index - 1] is FieldRef || cp.entries@[cp_index - 1] is MethodRef
            || cp.entries@[cp_index - 1] is InterfaceMethodRef || cp.entries@[cp_index - 1] is NameAndType || cp.entries@[cp_index - 1] is MethodType
            || cp.entries@[cp_index - 1] is MethodHandle || cp.entries@[cp_index - 1] is Dynamic || cp.entries@[cp_index - 1] is InvokeDynamic
            || cp.entries@[cp_index - 1] is Module || cp.entries@[cp_index - 1] is Package,
    ensures
        as_comment(r) == pool_line(cp.entries@, cp_index, l),
{
    let e = &cp.entries[(cp_index - 1) as usize];
    match e {
        ConstantPoolInfo::Class { name_index } => commented_string(&head, l, &index_string(*name_index), "// ", cp.get_utf8_content(*name_index)),
        ConstantPoolInfo::FieldRef { class_index, name_and_type_index } => commented_string(&head, l, &index_pair_string(*class_index, '.', *name_and_type_index), "// ", cp.get_method_ref_string(*class_index, *name_and_type_index)),
        ConstantPoolInfo::MethodRef { class_index, name_and_type_index } => commented_string(&head, l, &index_pair_string(*class_index, '.', *name_and_type_index), "// ", cp.get_method_ref_string(*class_index, *name_and_type_index)),
        ConstantPoolInfo::InterfaceMethodRef { class_index, name_and_type_index } => commented_string(&head, l, &index_pair_string(*class_index, '.', *name_and_type_index), "// ", cp.get_method_ref_string(*class_index, *name_and_type_index)),
        ConstantPoolInfo::NameAndType { name_index, descriptor_index } => commented_string(&head, l, &index_pair_string(*name_index, ':', *descriptor_index), "// ", cp.get_name_and_type_string(*name_index, *descriptor_index)),
        ConstantPoolInfo::MethodType { descriptor_index } => commented_string(&head, l, &index_string(*descriptor_index), "//  ", cp.get_utf8_content(*descriptor_index)),
        ConstantPoolInfo::MethodHandle { reference_kind, reference_index } => {
            let mut ops = decimal_string(reference_kind.code() as u64);
            push_str(&mut ops, ":#");
            push_decimal(&mut ops, *reference_index as u64);
            assert(ops@ =~= decimal(kind_code(*reference_kind) as nat) + ":#"@ + decimal(*reference_index as nat));
            commented_string(&head, l, &ops, "// ", handle_comment(cp, *reference_kind, *reference_index))
        },
        ConstantPoolInfo::Dynamic { bootstrap_method_attr_index, name_and_type_index } => commented_string(&head, l, &index_pair_string(*bootstrap_method_attr_index, ':', *name_and_type_index), "// ", cp.get_invoke_dynamic_string(*bootstrap_method_attr_index, *name_and_type_index)),
        ConstantPoolInfo::InvokeDynamic { bootstrap_method_attr_index, name_and_type_index } => commented_string(&head, l, &index_pair_string(*bootstrap_method_attr_index, ':', *name_and_type_index), "// ", cp.get_invoke_dynamic_string(*bootstrap_method_attr_index, *name_and_type_index)),
        ConstantPoolInfo::Module { name_index } => commented_string(&head, l, &index_string(*name_index), "// ", cp.get_utf8_content(*name_index)),
        ConstantPoolInfo::Package { name_index } => commented_string(&head, l, &index_string(*name_index), "// ", cp.get_utf8_content(*name_index)),
        _ => Err(ClassFileError::WrongEntryType { index: cp_index }),
    }
}

/// The listing line of the entry at index `cp_index` (see `pool_line`).
pub fn constant_pool_line(cp: &ConstantPool, cp_index: u16, l: PoolLayout) -> (r: Result<Option<String>, ClassFileError>)
    requires
        1 <= cp_index <= cp.entries@.len(),
    ensures
        as_comment(r) == pool_line(cp.entries@, cp_index, l),
{
    let e = &cp.entries[(cp_index - 1) as usize];
    let mut head = pad_start_string(index_string(cp_index).as_str(), l.index_width);
    push_str(&mut head, " = ");
    push_str(&mut head, tag_name_str(e));
    let ghost h0 = head@;
    assert(h0 == entry_head(cp_index, *e, l));
    match e {
        ConstantPoolInfo::Null {} | ConstantPoolInfo::Utf8 { .. } | ConstantPoolInfo::Integer { .. }
        | ConstantPoolInfo::Float { .. } | ConstantPoolInfo::Double { .. } | ConstantPoolInfo::Long { .. }
        | ConstantPoolInfo::String { .. } => value_line(cp, cp_index, l, head),
        _ => reference_line(cp, cp_index, l, head),
    }
}

} // verus!
