use vstd::prelude::*;

use crate::access_flags::{
    flags_word, java_repr_vec, joined_java_repr, modifier_repr_vec, to_u16, AccessFlag,
};
use crate::attributes::{
    AttributeInfo, BootstrapMethod, Class, RecordComponent, StackMapFrame, VerificationTypeInfo,
};
use crate::bytecode::{targets_in_range, targets_within, BytecodeInstruction};
use vstd::std_specs::btree::{key_obeys_cmp_spec, spec_btree_map_iter};
use vstd::std_specs::iter::IteratorSpec;
use vstd::std_specs::cmp::OrdSpec;
use crate::classfile::ClassFile;
use crate::constant_pool::{class_name, entry_of, method_ref, utf8_content, ConstantPool, ConstantPoolInfo};
use crate::printer::layout_for;
use crate::descriptor::{
    descriptor_of, dotted, java_list, java_of, java_string, method_descriptor_of,
    parse_field_descriptor, parse_method_descriptor, valid_type, valid_types, MethodDescriptor, Type,
};
use crate::error::ClassFileError;
use crate::fields::FieldInfo;
use crate::methods::MethodInfo;
use crate::printer::{
    comment_of, instruction_text, get_comment, get_opcode_and_arguments_string, get_verification_type_info_string, pool_layout,
};
use crate::reference_kind::java_repr;
use crate::text::{
    chars_of, decimal, hex_fixed, hex_string, lit, pad_end, pad_end_in_place, pad_start,
    pad_start_string, push_char, push_decimal, push_hex, push_signed_decimal, push_str,
    signed_decimal,
};

verus! {

/// The column where the `//` comment of a bytecode line starts.
pub const BYTECODE_COMMENT_START: usize = 46;

/// The width in which a bytecode offset is right-aligned.
pub const BYTECODE_INDEX_WIDTH: usize = 5;

/// The UTC calendar date (year, month, day) of a Unix timestamp.
pub uninterp spec fn utc_date_of(timestamp: int) -> (int, int, int);

/// Relies on `time::OffsetDateTime::from_unix_timestamp` with `year`, `month` and `day`:
/// the UTC date of a timestamp; `None` where the crate refuses the timestamp as out of range
/// (before year -9999 or after year 9999).
#[verifier::external_body]
fn utc_date(timestamp: i64) -> (r: Option<(i32, u8, u8)>)
    ensures
        r is Some <==> -377705116800 <= timestamp <= 253402300799,
        r matches Some((y, m, d)) ==> utc_date_of(timestamp as int) == (y as int, m as int, d as int)
            && 1 <= m <= 12 && 1 <= d <= 31,
{
    match time::OffsetDateTime::from_unix_timestamp(timestamp) {
        Ok(t) => Some((t.year(), u8::from(t.month()), t.day())),
        Err(_) => None,
    }
}

/// The three-letter English abbreviation of month `m` (1 is January).
pub open spec fn month_abbrev(m: int) -> Seq<char> {
    if m == 1 { "Jan"@ }
    else if m == 2 { "Feb"@ }
    else if m == 3 { "Mar"@ }
    else if m == 4 { "Apr"@ }
    else if m == 5 { "May"@ }
    else if m == 6 { "Jun"@ }
    else if m == 7 { "Jul"@ }
    else if m == 8 { "Aug"@ }
    else if m == 9 { "Sep"@ }
    else if m == 10 { "Oct"@ }
    else if m == 11 { "Nov"@ }
    else { "Dec"@ }
}

/// `  Last modified Mon D, YYYY; size N bytes`.
pub open spec fn last_modified_spec(year: int, month: int, day: int, size: nat) -> Seq<char> {
    "  Last modified "@ + month_abbrev(month) + seq![' '] + decimal(day as nat) + ", "@
        + signed_decimal(year) + "; size "@ + decimal(size) + " bytes"@
}

fn month_abbrev_str(m: u8) -> (r: &'static str)
    ensures
        r@ == month_abbrev(m as int),
{
    if m == 1 { "Jan" }
    else if m == 2 { "Feb" }
    else if m == 3 { "Mar" }
    else if m == 4 { "Apr" }
    else if m == 5 { "May" }
    else if m == 6 { "Jun" }
    else if m == 7 { "Jul" }
    else if m == 8 { "Aug" }
    else if m == 9 { "Sep" }
    else if m == 10 { "Oct" }
    else if m == 11 { "Nov" }
    else { "Dec" }
}

/// The header line that gives the modification date and the size of the file.
pub fn last_modified_text(year: i32, month: u8, day: u8, size: u64) -> (r: String)
    ensures
        r@ == last_modified_spec(year as int, month as int, day as int, size as nat),
{
    let mut s = lit("  Last modified ");
    push_str(&mut s, month_abbrev_str(month));
    push_char(&mut s, ' ');
    push_decimal(&mut s, day as u64);
    push_str(&mut s, ", ");
    push_signed_decimal(&mut s, year as i64);
    push_str(&mut s, "; size ");
    push_decimal(&mut s, size);
    push_str(&mut s, " bytes");
    assert(s@ =~= last_modified_spec(year as int, month as int, day as int, size as nat));
    s
}

/// The modification line for a timestamp, or `None` when the date cannot be computed.
pub fn last_modified_line(timestamp: i64, size: u64) -> (r: Option<String>)
    ensures
        r is Some <==> -377705116800 <= timestamp <= 253402300799,
        r matches Some(s) ==> exists|y: int, m: int, d: int|
            utc_date_of(timestamp as int) == (y, m, d) && s@ == last_modified_spec(y, m, d, size as nat),
{
    match utc_date(timestamp) {
        Some((y, m, d)) => Some(last_modified_text(y, m, d, size)),
        None => None,
    }
}

/// `flags: (0x0021) ACC_PUBLIC, ACC_SUPER` after `indent`.
pub open spec fn flags_line_spec(indent: Seq<char>, flags: Seq<AccessFlag>) -> Seq<char> {
    indent + "flags: (0x"@ + hex_fixed(flags_word(flags) as nat, 4) + ") "@ + joined_java_repr(flags)
}

pub fn flags_line(indent: &str, flags: &[AccessFlag]) -> (r: String)
    ensures
        r@ == flags_line_spec(indent@, flags@),
{
    let mut s = lit(indent);
    push_str(&mut s, "flags: (0x");
    push_hex(&mut s, to_u16(flags) as u64, 4);
    push_str(&mut s, ") ");
    let j = java_repr_vec(flags);
    push_str(&mut s, j.as_str());
    assert(s@ =~= flags_line_spec(indent@, flags@));
    s
}

/// One line of a bytecode listing: the offset right-aligned in five columns after five
/// spaces, the instruction, and its comment from column 46.
pub open spec fn instruction_line_spec(position: nat, text: Seq<char>, comment: Option<Seq<char>>) -> Seq<char> {
    let base = "     "@ + pad_start(decimal(position), 5) + ": "@ + text;
    match comment {
        Some(c) => pad_end(base, 46) + "// "@ + c,
        None => base,
    }
}

pub fn instruction_line(position: u32, text: &String, comment: &Option<String>) -> (r: String)
    ensures
        r@ == instruction_line_spec(position as nat, text@, match comment {
            Some(c) => Some(c@),
            None => None,
        }),
{
    let mut s = lit("     ");
    let p = pad_start_string(crate::text::decimal_string(position as u64).as_str(), BYTECODE_INDEX_WIDTH);
    push_str(&mut s, p.as_str());
    push_str(&mut s, ": ");
    push_str(&mut s, text.as_str());
    match comment {
        Some(c) => {
            pad_end_in_place(&mut s, BYTECODE_COMMENT_START);
            push_str(&mut s, "// ");
            push_str(&mut s, c.as_str());
        },
        None => {},
    }
    s
}

/// `s` with every `/` turned into `.`.
pub fn to_dotted(s: &String) -> (r: String)
    ensures
        r@ == dotted(s@),
{
    let cs = chars_of(s.as_str());
    let mut out = String::new();
    let mut i: usize = 0;
    while i < cs.len()
        invariant
            cs@ == s@,
            0 <= i <= cs@.len(),
            out@ == dotted(cs@.subrange(0, i as int)),
        decreases cs@.len() - i,
    {
        let c = cs[i];
        push_char(&mut out, if c == '/' { '.' } else { c });
        assert(cs@.subrange(0, i + 1) =~= cs@.subrange(0, i as int).push(c));
        assert(dotted(cs@.subrange(0, i + 1)) =~= dotted(cs@.subrange(0, i as int)).push(if c == '/' { '.' } else { c }));
        i = i + 1;
    }
    assert(cs@.subrange(0, cs@.len() as int) =~= cs@);
    out
}

/// The keywords of `flags` separated by spaces, without a leading space.
pub fn modifiers(flags: &[AccessFlag]) -> (r: String)
    ensures
        r@ == modifier_words(flags@),
{
    let m = modifier_repr_vec(flags);
    let n = m.as_str().unicode_len();
    if n == 0 {
        m
    } else {
        let r = lit(m.as_str().substring_char(1, n));
        assert(r@ =~= m@.drop_first());
        r
    }
}

/// The keywords of `flags` separated by single spaces.
pub open spec fn modifier_words(flags: Seq<AccessFlag>) -> Seq<char> {
    let j = crate::access_flags::joined_modifier_repr(flags);
    if j.len() == 0 { j } else { j.drop_first() }
}

fn has_flag(flags: &[AccessFlag], f: AccessFlag) -> (r: bool)
    ensures
        r == flags@.contains(f),
{
    let mut i: usize = 0;
    while i < flags.len()
        invariant
            0 <= i <= flags@.len(),
            forall|j: int| 0 <= j < i ==> flags@[j] != f,
        decreases flags@.len() - i,
    {
        if flags[i] == f {
            return true;
        }
        i = i + 1;
    }
    false
}

/// `text` padded to the comment column, then `// ` and the comment.
fn with_comment(text: String, column: usize, comment: &String) -> (r: String)
    ensures
        r@ == pad_end(text@, column as int) + "// "@ + comment@,
{
    let mut s = text;
    pad_end_in_place(&mut s, column);
    push_str(&mut s, "// ");
    push_str(&mut s, comment.as_str());
    s
}

fn index_line(label: &str, index: u16) -> (r: String)
    ensures
        r@ == label@ + seq!['#'] + decimal(index as nat),
{
    let mut s = lit(label);
    push_char(&mut s, '#');
    push_decimal(&mut s, index as u64);
    assert(s@ =~= label@ + seq!['#'] + decimal(index as nat));
    s
}

/// The index of the first `SourceFile` attribute among the first `n`, if any.
pub open spec fn source_file_at(attrs: Seq<AttributeInfo>, n: int) -> Option<u16>
    decreases n,
{
    if n <= 0 {
        None
    } else {
        match source_file_at(attrs, n - 1) {
            Some(i) => Some(i),
            None => match attrs[n - 1] {
                AttributeInfo::SourceFile { source_file_index } => Some(source_file_index),
                _ => None,
            },
        }
    }
}

/// The text of the first `SourceFile` attribute, if there is one.
pub open spec fn source_file_text(cf: ClassFile) -> Result<Option<Seq<char>>, ClassFileError> {
    match source_file_at(cf.attributes@, cf.attributes@.len() as int) {
        Some(i) => match utf8_content(cf.constant_pool.entries@, i) {
            Ok(t) => Ok(Some(t)),
            Err(e) => Err(e),
        },
        None => Ok(None),
    }
}

proof fn lemma_source_file_kept(attrs: Seq<AttributeInfo>, n: int, m: int)
    requires
        n <= m,
        source_file_at(attrs, n) is Some,
    ensures
        source_file_at(attrs, m) == source_file_at(attrs, n),
    decreases m - n,
{
    if n < m {
        lemma_source_file_kept(attrs, n, m - 1);
    }
}

fn source_file_name(cf: &ClassFile) -> (r: Result<Option<String>, ClassFileError>)
    ensures
        crate::printer::as_comment(r) == source_file_text(*cf),
{
    let mut i: usize = 0;
    while i < cf.attributes.len()
        invariant
            0 <= i <= cf.attributes@.len(),
            source_file_at(cf.attributes@, i as int) is None,
        decreases cf.attributes@.len() - i,
    {
        match &cf.attributes[i] {
            AttributeInfo::SourceFile { source_file_index } => {
                proof {
                    lemma_source_file_kept(cf.attributes@, i as int + 1, cf.attributes@.len() as int);
                }
                return Ok(Some(cf.constant_pool.get_utf8_content(*source_file_index)?));
            },
            _ => {},
        }
        i = i + 1;
    }
    Ok(None)
}

/// The modifiers of `flags` followed by a space, or nothing when there are none.
pub open spec fn modifiers_prefix(flags: Seq<AccessFlag>) -> Seq<char> {
    if modifier_words(flags).len() > 0 { modifier_words(flags) + seq![' '] } else { Seq::empty() }
}

/// The class declaration: modifiers, dotted name, and an `extends` clause unless the
/// superclass is `java/lang/Object` (`java.lang.Enum<Self>` for an enum).
pub open spec fn declaration_spec(this_name: Seq<char>, super_name: Seq<char>, flags: Seq<AccessFlag>) -> Seq<char> {
    modifiers_prefix(flags) + dotted(this_name) + if super_name == "java/lang/Object"@ {
        Seq::empty()
    } else if flags.contains(AccessFlag::Enum) {
        " extends "@ + "java.lang.Enum<"@ + dotted(this_name) + seq!['>']
    } else {
        " extends "@ + dotted(super_name)
    }
}

/// The class declaration line (see `declaration_spec`).
pub fn class_declaration(cf: &ClassFile) -> (r: Result<String, ClassFileError>)
    ensures
        r matches Ok(s) ==> exists|t: Seq<char>, u: Seq<char>|
            crate::constant_pool::class_name(cf.constant_pool.entries@, cf.this_class) == Ok::<Seq<char>, ClassFileError>(t)
                && crate::constant_pool::class_name(cf.constant_pool.entries@, cf.super_class) == Ok::<Seq<char>, ClassFileError>(u)
                && s@ == declaration_spec(t, u, cf.access_flags@),
        r is Err ==> crate::constant_pool::class_name(cf.constant_pool.entries@, cf.this_class) is Err
            || crate::constant_pool::class_name(cf.constant_pool.entries@, cf.super_class) is Err,
{
    let cp = &cf.constant_pool;
    let this_internal = cp.get_class_name(cf.this_class)?;
    let this_name = to_dotted(&this_internal);
    let mut s = modifiers(cf.access_flags.as_slice());
    if s.as_str().unicode_len() > 0 {
        push_char(&mut s, ' ');
    }
    assert(s@ == modifiers_prefix(cf.access_flags@));
    push_str(&mut s, this_name.as_str());
    let ghost base = s@;
    let super_name = cp.get_class_name(cf.super_class)?;
    if !(super_name == lit("java/lang/Object")) {
        push_str(&mut s, " extends ");
        if has_flag(cf.access_flags.as_slice(), AccessFlag::Enum) {
            push_str(&mut s, "java.lang.Enum<");
            push_str(&mut s, this_name.as_str());
            push_char(&mut s, '>');
            assert(s@ =~= base + (" extends "@ + "java.lang.Enum<"@ + dotted(this_internal@) + seq!['>']));
        } else {
            let d = to_dotted(&super_name);
            push_str(&mut s, d.as_str());
            assert(s@ =~= base + (" extends "@ + dotted(super_name@)));
        }
    } else {
        assert(s@ =~= base + Seq::<char>::empty());
    }
    assert(s@ == declaration_spec(this_internal@, super_name@, cf.access_flags@));
    Ok(s)
}

/// `  interfaces: a, fields: b, methods: c, attributes: d`.
pub open spec fn counts_spec(interfaces: nat, fields: nat, methods: nat, attributes: nat) -> Seq<char> {
    "  interfaces: "@ + decimal(interfaces) + ", fields: "@ + decimal(fields) + ", methods: "@
        + decimal(methods) + ", attributes: "@ + decimal(attributes)
}

/// The modification line of the header: the date when the timestamp is in range, a
/// question mark otherwise.
pub open spec fn modified_line_spec(timestamp: i64, size: nat, line: Seq<char>) -> bool {
    if -377705116800 <= timestamp <= 253402300799 {
        exists|y: int, m: int, d: int|
            utc_date_of(timestamp as int) == (y, m, d) && line == last_modified_spec(y, m, d, size)
    } else {
        line == "  Last modified ?; size "@ + decimal(size) + " bytes"@
    }
}

/// `label#index`, then the class name from the comment column.
pub open spec fn class_index_line_spec(label: Seq<char>, index: u16, column: int, name: Seq<char>) -> Seq<char> {
    pad_end(label + seq!['#'] + decimal(index as nat), column) + "// "@ + name
}

/// The header of the listing, from the file path to the member counts. It fails exactly
/// when the source file name, or the name of this class or of its superclass, does not
/// resolve.
pub fn header_lines(cf: &ClassFile) -> (r: Result<Vec<String>, ClassFileError>)
    requires
        cf.constant_pool.entries@.len() <= u16::MAX,
    ensures
        r is Err <==> source_file_text(*cf) is Err || class_name(cf.constant_pool.entries@, cf.this_class) is Err
            || class_name(cf.constant_pool.entries@, cf.super_class) is Err,
        r matches Ok(v) ==> {
            let n = v@.len();
            let cp = cf.constant_pool.entries@;
            let col = layout_for(cp.len()).comment_start as int;
            &&& n == if source_file_text(*cf)->Ok_0 is Some { 11int } else { 10int }
            &&& v@[0]@ == "Classfile "@ + cf.absolute_file_path@
            &&& modified_line_spec(cf.modified_time, cf.file_size as nat, v@[1]@)
            &&& v@[2]@ == "  SHA-256 checksum "@ + crate::text::hex_bytes(cf.sha256_digest@)
            &&& (source_file_text(*cf)->Ok_0 matches Some(t) ==> v@[3]@ == "  Compiled from \""@ + t + seq!['"'])
            &&& v@[n - 7]@ == declaration_spec(class_name(cp, cf.this_class)->Ok_0, class_name(cp, cf.super_class)->Ok_0, cf.access_flags@)
            &&& v@[n - 6]@ == "  minor version: "@ + decimal(cf.minor_version as nat)
            &&& v@[n - 5]@ == "  major version: "@ + decimal(cf.major_version as nat)
            &&& v@[n - 4]@ == flags_line_spec("  "@, cf.access_flags@)
            &&& v@[n - 3]@ == class_index_line_spec("  this_class: "@, cf.this_class, col, class_name(cp, cf.this_class)->Ok_0)
            &&& v@[n - 2]@ == class_index_line_spec("  super_class: "@, cf.super_class, col, class_name(cp, cf.super_class)->Ok_0)
            &&& v@[n - 1]@ == counts_spec(cf.interfaces@.len(), cf.fields@.len(), cf.methods@.len(), cf.attributes@.len())
        },
{
    let cp = &cf.constant_pool;
    let layout = pool_layout(cp);
    let mut l0 = lit("Classfile ");
    push_str(&mut l0, cf.absolute_file_path.as_str());
    let l1 = match last_modified_line(cf.modified_time, cf.file_size as u64) {
        Some(l) => l,
        None => {
            let mut l = lit("  Last modified ?; size ");
            push_decimal(&mut l, cf.file_size as u64);
            push_str(&mut l, " bytes");
            assert(l@ =~= "  Last modified ?; size "@ + decimal(cf.file_size as nat) + " bytes"@);
            l
        },
    };
    let mut l2 = lit("  SHA-256 checksum ");
    let h = hex_string(cf.sha256_digest.as_slice());
    push_str(&mut l2, h.as_str());
    let source = source_file_name(cf)?;
    let this_name = cp.get_class_name(cf.this_class)?;
    let super_name = cp.get_class_name(cf.super_class)?;
    let decl = class_declaration(cf)?;
    let mut minor = lit("  minor version: ");
    push_decimal(&mut minor, cf.minor_version as u64);
    let mut major = lit("  major version: ");
    push_decimal(&mut major, cf.major_version as u64);
    let flags = flags_line("  ", cf.access_flags.as_slice());
    let this_line = with_comment(index_line("  this_class: ", cf.this_class), layout.comment_start, &this_name);
    let super_line = with_comment(index_line("  super_class: ", cf.super_class), layout.comment_start, &super_name);
    let mut counts = lit("  interfaces: ");
    push_decimal(&mut counts, cf.interfaces.len() as u64);
    push_str(&mut counts, ", fields: ");
    push_decimal(&mut counts, cf.fields.len() as u64);
    push_str(&mut counts, ", methods: ");
    push_decimal(&mut counts, cf.methods.len() as u64);
    push_str(&mut counts, ", attributes: ");
    push_decimal(&mut counts, cf.attributes.len() as u64);
    assert(counts@ =~= counts_spec(cf.interfaces@.len(), cf.fields@.len(), cf.methods@.len(), cf.attributes@.len()));
    let mut v: Vec<String> = Vec::new();
    v.push(l0);
    v.push(l1);
    v.push(l2);
    match source {
        Some(name) => {
            let mut l = lit("  Compiled from \"");
            push_str(&mut l, name.as_str());
            push_char(&mut l, '"');
            assert(l@ =~= "  Compiled from \""@ + name@ + seq!['"']);
            v.push(l);
        },
        None => {},
    }
    v.push(decl);
    v.push(minor);
    v.push(major);
    v.push(flags);
    v.push(this_line);
    v.push(super_line);
    v.push(counts);
    Ok(v)
}

/// The lines of one field: declaration, descriptor, flags, and a blank line.
pub fn field_lines(cp: &ConstantPool, field: &FieldInfo) -> (r: Result<Vec<String>, ClassFileError>)
    ensures
        r matches Ok(v) ==> v@.len() == 4 && v@[2]@ == flags_line_spec("    "@, field.access_flags@)
            && v@[3]@.len() == 0 && exists|name: Seq<char>, desc: Seq<char>, t: Type|
            utf8_content(cp.entries@, field.name_index) == Ok::<Seq<char>, ClassFileError>(name)
                && utf8_content(cp.entries@, field.descriptor_index) == Ok::<Seq<char>, ClassFileError>(desc)
                && descriptor_of(t) == desc
                && v@[0]@ == "  "@ + modifiers_prefix(field.access_flags@) + java_of(t) + seq![' '] + name + seq![';']
                && v@[1]@ == "    descriptor: "@ + desc,
        r is Err <==> match (utf8_content(cp.entries@, field.descriptor_index), utf8_content(cp.entries@, field.name_index)) {
            (Ok(desc), Ok(name)) => !field_descriptor_valid(desc),
            _ => true,
        },
{
    let descriptor = cp.get_utf8_content(field.descriptor_index)?;
    let name = cp.get_utf8_content(field.name_index)?;
    let parsed = parse_field_descriptor(descriptor.as_str())?;
    let t = java_string(&parsed.field_type);
    let mut decl = lit("  ");
    let m = modifiers(field.access_flags.as_slice());
    if m.as_str().unicode_len() > 0 {
        push_str(&mut decl, m.as_str());
        push_char(&mut decl, ' ');
    }
    assert(decl@ =~= "  "@ + modifiers_prefix(field.access_flags@));
    push_str(&mut decl, t.as_str());
    push_char(&mut decl, ' ');
    push_str(&mut decl, name.as_str());
    push_char(&mut decl, ';');
    assert(decl@ =~= "  "@ + modifiers_prefix(field.access_flags@) + java_of(parsed.field_type) + seq![' '] + name@ + seq![';']);
    let mut d = lit("    descriptor: ");
    push_str(&mut d, descriptor.as_str());
    let mut v: Vec<String> = Vec::new();
    v.push(decl);
    v.push(d);
    v.push(flags_line("    ", field.access_flags.as_slice()));
    v.push(String::new());
    Ok(v)
}

/// The Java renderings of `ts` from index `from` on, separated by `", "`.
fn type_list_from(ts: &Vec<Type>, from: usize) -> (r: String)
    requires
        from <= ts@.len(),
    ensures
        r@ == java_list(ts@.subrange(from as int, ts@.len() as int), (ts@.len() - from) as nat),
{
    let ghost sub = ts@.subrange(from as int, ts@.len() as int);
    let mut s = String::new();
    let mut k: usize = from;
    while k < ts.len()
        invariant
            from <= k <= ts@.len(),
            sub == ts@.subrange(from as int, ts@.len() as int),
            s@ == java_list(sub, (k - from) as nat),
        decreases ts@.len() - k,
    {
        if k > from {
            push_str(&mut s, ", ");
        }
        let t = java_string(&ts[k]);
        push_str(&mut s, t.as_str());
        assert(sub[k - from] == ts@[k as int]);
        assert(s@ =~= java_list(sub, (k + 1 - from) as nat));
        k = k + 1;
    }
    s
}

/// The parameters that a constructor shows: an enum's constructor hides the name and
/// ordinal that the compiler adds in front.
pub open spec fn shown_parameters(params: Seq<Type>, is_enum: bool) -> Seq<Type> {
    if is_enum && params.len() >= 2 { params.subrange(2, params.len() as int) } else { params }
}

/// The declaration line of a method named `name` whose descriptor parsed to `params`
/// and `ret`, in a class whose dotted name is `class_name`.
pub open spec fn method_declaration_spec(flags: Seq<AccessFlag>, name: Seq<char>, class_name: Seq<char>, is_enum: bool, params: Seq<Type>, ret: Type) -> Seq<char> {
    "  "@ + modifiers_prefix(flags) + if name == "<init>"@ {
        class_name + seq!['('] + java_list(shown_parameters(params, is_enum), shown_parameters(params, is_enum).len()) + ");"@
    } else {
        java_of(ret) + seq![' '] + name + seq!['('] + java_list(params, params.len()) + ");"@
    }
}

/// `s` is the declaration line of `method`: `{};` for a class initializer, otherwise the
/// line that `method_declaration_spec` gives for the parsed descriptor.
pub open spec fn declares_method(cp: Seq<ConstantPoolInfo>, this_class: u16, is_enum: bool, method: MethodInfo, s: Seq<char>) -> bool {
    exists|name: Seq<char>, desc: Seq<char>|
            utf8_content(cp, method.name_index) == Ok::<Seq<char>, ClassFileError>(name)
                && utf8_content(cp, method.descriptor_index) == Ok::<Seq<char>, ClassFileError>(desc)
                && if name == "<clinit>"@ {
                s == "  "@ + modifiers_prefix(method.access_flags@) + "{};"@
            } else {
                exists|d: MethodDescriptor, c: Seq<char>|
                    method_descriptor_of(d.parameter_types@, d.return_type) == desc
                        && (name == "<init>"@ ==> class_name(cp, this_class) == Ok::<Seq<char>, ClassFileError>(c))
                        && s == method_declaration_spec(method.access_flags@, name, dotted(c), is_enum, d.parameter_types@, d.return_type)
            }
}

/// Whether a method descriptor text denotes well-formed parameter and return types.
pub open spec fn method_descriptor_valid(desc: Seq<char>) -> bool {
    exists|ps: Seq<Type>, rt: Type|
        valid_types(ps, ps.len()) && valid_type(rt) && #[trigger] method_descriptor_of(ps, rt) == desc
}

/// Whether a field descriptor text denotes a well-formed type.
pub open spec fn field_descriptor_valid(desc: Seq<char>) -> bool {
    exists|t: Type| valid_type(t) && #[trigger] descriptor_of(t) == desc
}

/// A method's declaration line cannot be built: its name or descriptor does not resolve,
/// or (unless it is a class initializer) the descriptor is malformed, or a constructor's
/// class name does not resolve.
pub open spec fn method_declaration_fails(cp: Seq<ConstantPoolInfo>, this_class: u16, method: MethodInfo) -> bool {
    match (utf8_content(cp, method.descriptor_index), utf8_content(cp, method.name_index)) {
        (Ok(desc), Ok(name)) => name != "<clinit>"@ && (!method_descriptor_valid(desc)
            || (name == "<init>"@ && class_name(cp, this_class) is Err)),
        _ => true,
    }
}

/// The declaration line of a method: `{};` for a class initializer, the class name and
/// parameters for a constructor (an enum's constructor without its two implicit
/// parameters), otherwise return type, name and parameters.
#[verifier::rlimit(40)]
pub fn method_declaration(cp: &ConstantPool, this_class: u16, is_enum: bool, method: &MethodInfo) -> (r: Result<String, ClassFileError>)
    ensures
        r matches Ok(s) ==> declares_method(cp.entries@, this_class, is_enum, *method, s@),
        r is Err <==> method_declaration_fails(cp.entries@, this_class, *method),
{
    let descriptor = cp.get_utf8_content(method.descriptor_index)?;
    let name = cp.get_utf8_content(method.name_index)?;
    let mut s = lit("  ");
    let m = modifiers(method.access_flags.as_slice());
    if m.as_str().unicode_len() > 0 {
        push_str(&mut s, m.as_str());
        push_char(&mut s, ' ');
    }
    assert(s@ =~= "  "@ + modifiers_prefix(method.access_flags@));
    let ghost head = s@;
    if name == lit("<clinit>") {
        push_str(&mut s, "{};");
        return Ok(s);
    }
    let d = parse_method_descriptor(descriptor.as_str())?;
    if name == lit("<init>") {
        let internal = cp.get_class_name(this_class)?;
        let class_name = to_dotted(&internal);
        push_str(&mut s, class_name.as_str());
        push_char(&mut s, '(');
        let from: usize = if is_enum && d.parameter_types.len() >= 2 { 2 } else { 0 };
        let params = type_list_from(&d.parameter_types, from);
        push_str(&mut s, params.as_str());
        push_str(&mut s, ");");
        proof {
            assert(d.parameter_types@.subrange(0, d.parameter_types@.len() as int) =~= d.parameter_types@);
            assert(s@ =~= method_declaration_spec(method.access_flags@, name@, dotted(internal@), is_enum, d.parameter_types@, d.return_type));
        }
        Ok(s)
    } else {
        let ret = java_string(&d.return_type);
        push_str(&mut s, ret.as_str());
        push_char(&mut s, ' ');
        push_str(&mut s, name.as_str());
        push_char(&mut s, '(');
        let params = type_list_from(&d.parameter_types, 0);
        push_str(&mut s, params.as_str());
        push_str(&mut s, ");");
        proof {
            assert(d.parameter_types@.subrange(0, d.parameter_types@.len() as int) =~= d.parameter_types@);
            assert(s@ =~= method_declaration_spec(method.access_flags@, name@, dotted(Seq::<char>::empty()), is_enum, d.parameter_types@, d.return_type));
        }
        Ok(s)
    }
}

/// The number of argument slots that javap reports: the parameters, and `this` unless static.
pub fn args_size(parameter_count: usize, is_static: bool) -> (r: u64)
    requires
        parameter_count < u64::MAX,
    ensures
        r == parameter_count + if is_static { 0int } else { 1int },
{
    if is_static { parameter_count as u64 } else { parameter_count as u64 + 1 }
}

fn parameter_slots(parameter_count: usize, is_static: bool) -> (r: u64)
    ensures
        parameter_count < u64::MAX ==> r == parameter_count + if is_static { 0int } else { 1int },
{
    if (parameter_count as u128) < (u64::MAX as u128) {
        args_size(parameter_count, is_static)
    } else {
        u64::MAX
    }
}

/// A verification type whose class does not resolve.
pub open spec fn vti_fails(cp: Seq<ConstantPoolInfo>, v: VerificationTypeInfo) -> bool {
    v matches VerificationTypeInfo::ObjectVariable { constant_pool_index } && class_name(cp, constant_pool_index) is Err
}

/// Some verification type in `vs` has a class that does not resolve.
pub open spec fn vtis_fail(cp: Seq<ConstantPoolInfo>, vs: Seq<VerificationTypeInfo>) -> bool {
    exists|k: int| 0 <= k < vs.len() && vti_fails(cp, #[trigger] vs[k])
}

/// A stack-map frame names a class that does not resolve.
pub open spec fn frame_fails(cp: Seq<ConstantPoolInfo>, f: StackMapFrame) -> bool {
    match f {
        StackMapFrame::SameLocals1StackItemFrame { stack, .. } => vti_fails(cp, stack),
        StackMapFrame::SameLocals1StackItemFrameExtended { stack, .. } => vti_fails(cp, stack),
        StackMapFrame::AppendFrame { locals, .. } => vtis_fail(cp, locals@),
        StackMapFrame::FullFrame { locals, stack, .. } => vtis_fail(cp, locals@) || vtis_fail(cp, stack@),
        _ => false,
    }
}

/// A nested table of a `Code` attribute holds an index that does not resolve: a local
/// variable's name or descriptor, or a class in a stack-map frame.
pub open spec fn table_listing_fails(cp: Seq<ConstantPoolInfo>, a: AttributeInfo) -> bool {
    match a {
        AttributeInfo::LocalVariableTable { local_variable_table: t } => exists|k: int| 0 <= k < t@.len()
            && (utf8_content(cp, (#[trigger] t@[k]).name_index) is Err || utf8_content(cp, t@[k].descriptor_index) is Err),
        AttributeInfo::StackMapTable { stack_map_table: fs } => exists|k: int| 0 <= k < fs@.len()
            && frame_fails(cp, #[trigger] fs@[k]),
        _ => false,
    }
}

/// The text of a verification type that resolves.
pub open spec fn vti_text(cp: Seq<ConstantPoolInfo>, v: VerificationTypeInfo) -> Seq<char> {
    crate::printer::verification_text(cp, v)->Ok_0
}

/// The texts of the first `n` verification types, separated by `", "`.
pub open spec fn vti_join(cp: Seq<ConstantPoolInfo>, vs: Seq<VerificationTypeInfo>, n: nat) -> Seq<char>
    decreases n,
{
    if n == 0 || n > vs.len() {
        Seq::empty()
    } else if n == 1 {
        vti_text(cp, vs[0])
    } else {
        vti_join(cp, vs, (n - 1) as nat) + ", "@ + vti_text(cp, vs[n - 1])
    }
}

/// `[]`, or the texts of the verification types between `[ ` and ` ]`.
pub open spec fn vti_list_text(cp: Seq<ConstantPoolInfo>, vs: Seq<VerificationTypeInfo>) -> Seq<char> {
    if vs.len() == 0 { "[]"@ } else { "[ "@ + vti_join(cp, vs, vs.len()) + " ]"@ }
}

pub open spec fn offset_line(od: u16) -> Seq<char> {
    "          offset_delta = "@ + decimal(od as nat)
}

pub open spec fn frame_type_line(t: u8, kind: Seq<char>) -> Seq<char> {
    "        frame_type = "@ + decimal(t as nat) + kind
}

/// The lines that javap shows for a stack-map frame.
pub open spec fn frame_text(cp: Seq<ConstantPoolInfo>, f: StackMapFrame) -> Seq<Seq<char>> {
    match f {
        StackMapFrame::SameFrame { frame_type } => seq![frame_type_line(frame_type, " /* same */"@)],
        StackMapFrame::SameLocals1StackItemFrame { frame_type, stack } => seq![
            frame_type_line(frame_type, " /* same_locals_1_stack_item */"@),
            "          stack = [ "@ + vti_text(cp, stack) + " ]"@,
        ],
        StackMapFrame::SameLocals1StackItemFrameExtended { offset_delta, stack } => seq![
            "        frame_type = 247 /* same_locals_1_stack_item_frame_extended */"@,
            offset_line(offset_delta),
            "          stack = [ "@ + vti_text(cp, stack) + " ]"@,
        ],
        StackMapFrame::ChopFrame { frame_type, offset_delta } => seq![
            frame_type_line(frame_type, " /* chop */"@),
            offset_line(offset_delta),
        ],
        StackMapFrame::SameFrameExtended { offset_delta } => seq![
            "        frame_type = 251 /* same_frame_extended */"@,
            offset_line(offset_delta),
        ],
        StackMapFrame::AppendFrame { frame_type, offset_delta, locals } => seq![
            frame_type_line(frame_type, " /* append */"@),
            offset_line(offset_delta),
            "          locals = "@ + vti_list_text(cp, locals@),
        ],
        StackMapFrame::FullFrame { offset_delta, locals, stack } => seq![
            "        frame_type = 255 /* full_frame */"@,
            offset_line(offset_delta),
            "          locals = "@ + vti_list_text(cp, locals@),
            "          stack = "@ + vti_list_text(cp, stack@),
        ],
    }
}

fn verification_list(cp: &ConstantPool, items: &Vec<VerificationTypeInfo>) -> (r: Result<String, ClassFileError>)
    ensures
        r is Err ==> vtis_fail(cp.entries@, items@),
        r matches Ok(s) ==> s@ == vti_list_text(cp.entries@, items@),
{
    if items.len() == 0 {
        return Ok(lit("[]"));
    }
    let mut s = lit("[ ");
    let ghost head = s@;
    let mut k: usize = 0;
    while k < items.len()
        invariant
            0 <= k <= items@.len(),
            s@ == head + vti_join(cp.entries@, items@, k as nat),
        decreases items@.len() - k,
    {
        if k > 0 {
            push_str(&mut s, ", ");
        }
        let t = match get_verification_type_info_string(cp, &items[k]) {
            Ok(t) => t,
            Err(e) => {
                assert(vti_fails(cp.entries@, items@[k as int]));
                return Err(e);
            },
        };
        push_str(&mut s, t.as_str());
        assert(s@ =~= head + vti_join(cp.entries@, items@, (k + 1) as nat));
        k = k + 1;
    }
    push_str(&mut s, " ]");
    Ok(s)
}

fn frame_type_string(t: u8, kind: &str) -> (r: String)
    ensures
        r@ == frame_type_line(t, kind@),
{
    let mut l = lit("        frame_type = ");
    push_decimal(&mut l, t as u64);
    push_str(&mut l, kind);
    l
}

fn offset_string(od: u16) -> (r: String)
    ensures
        r@ == offset_line(od),
{
    let mut l = lit("          offset_delta = ");
    push_decimal(&mut l, od as u64);
    l
}

fn prefixed_string(prefix: &str, t: String) -> (r: String)
    ensures
        r@ == prefix@ + t@,
{
    let mut l = lit(prefix);
    push_str(&mut l, t.as_str());
    l
}

fn stack_item_string(cp: &ConstantPool, v: &VerificationTypeInfo) -> (r: Result<String, ClassFileError>)
    ensures
        r is Err ==> vti_fails(cp.entries@, *v),
        r matches Ok(s) ==> s@ == "          stack = [ "@ + vti_text(cp.entries@, *v) + " ]"@,
{
    let t = get_verification_type_info_string(cp, v)?;
    let mut l = lit("          stack = [ ");
    push_str(&mut l, t.as_str());
    push_str(&mut l, " ]");
    Ok(l)
}

fn push_lines(out: &mut Vec<String>, lines: Vec<String>)
    ensures
        final(out)@ == old(out)@ + lines@,
{
    let mut lines = lines;
    out.append(&mut lines);
}

fn frame_lines(cp: &ConstantPool, frame: &StackMapFrame, out: &mut Vec<String>) -> (r: Result<(), ClassFileError>)
    ensures
        r is Err ==> frame_fails(cp.entries@, *frame),
        final(out)@.len() >= old(out)@.len(),
        forall|i: int| 0 <= i < old(out)@.len() ==> final(out)@[i] == old(out)@[i],
        r is Ok ==> final(out)@.len() == old(out)@.len() + frame_text(cp.entries@, *frame).len()
            && forall|j: int| 0 <= j < frame_text(cp.entries@, *frame).len() ==> final(out)@[old(out)@.len() + j]@
                == #[trigger] frame_text(cp.entries@, *frame)[j],
{
    let mut v: Vec<String> = Vec::new();
    match frame {
        StackMapFrame::SameFrame { frame_type } => {
            v.push(frame_type_string(*frame_type, " /* same */"));
        },
        StackMapFrame::SameLocals1StackItemFrame { frame_type, stack } => {
            v.push(frame_type_string(*frame_type, " /* same_locals_1_stack_item */"));
            v.push(stack_item_string(cp, stack)?);
        },
        StackMapFrame::SameLocals1StackItemFrameExtended { offset_delta, stack } => {
            v.push(lit("        frame_type = 247 /* same_locals_1_stack_item_frame_extended */"));
            v.push(offset_string(*offset_delta));
            v.push(stack_item_string(cp, stack)?);
        },
        StackMapFrame::ChopFrame { frame_type, offset_delta } => {
            v.push(frame_type_string(*frame_type, " /* chop */"));
            v.push(offset_string(*offset_delta));
        },
        StackMapFrame::SameFrameExtended { offset_delta } => {
            v.push(lit("        frame_type = 251 /* same_frame_extended */"));
            v.push(offset_string(*offset_delta));
        },
        StackMapFrame::AppendFrame { frame_type, offset_delta, locals } => {
            v.push(frame_type_string(*frame_type, " /* append */"));
            v.push(offset_string(*offset_delta));
            v.push(prefixed_string("          locals = ", verification_list(cp, locals)?));
        },
        StackMapFrame::FullFrame { offset_delta, locals, stack } => {
            v.push(lit("        frame_type = 255 /* full_frame */"));
            v.push(offset_string(*offset_delta));
            v.push(prefixed_string("          locals = ", verification_list(cp, locals)?));
            v.push(prefixed_string("          stack = ", verification_list(cp, stack)?));
        },
    }
    proof {
        let ft = frame_text(cp.entries@, *frame);
        assert(v@.len() == ft.len());
        assert forall|j: int| 0 <= j < ft.len() implies v@[j]@ == ft[j] by {}
    }
    let ghost vv = v@;
    push_lines(out, v);
    assert forall|j: int| 0 <= j < vv.len() implies out@[old(out)@.len() + j] == vv[j] by {}
    Ok(())
}

fn push_line(out: &mut Vec<String>, a: &str, n: u64, b: &str)
    ensures
        final(out)@ == old(out)@.push(final(out)@.last()),
        final(out)@.last()@ == a@ + decimal(n as nat) + b@,
{
    let mut l = lit(a);
    push_decimal(&mut l, n);
    push_str(&mut l, b);
    out.push(l);
}

/// One row of a `LocalVariableTable` listing.
pub open spec fn local_variable_row(cp: Seq<ConstantPoolInfo>, e: crate::attributes::LocalVariableTableEntry) -> Seq<char> {
    "         "@ + pad_start(decimal(e.start_pc as nat), 4) + "    "@ + pad_start(decimal(e.length as nat), 4)
        + "    "@ + pad_start(decimal(e.index as nat), 2) + seq![' '] + pad_start(utf8_content(cp, e.name_index)->Ok_0, 5)
        + "   "@ + utf8_content(cp, e.descriptor_index)->Ok_0
}

/// The lines of the first `n` stack-map frames, one frame after another.
pub open spec fn frames_text(cp: Seq<ConstantPoolInfo>, fs: Seq<StackMapFrame>, n: nat) -> Seq<Seq<char>>
    decreases n,
{
    if n == 0 || n > fs.len() {
        Seq::empty()
    } else {
        frames_text(cp, fs, (n - 1) as nat) + frame_text(cp, fs[n - 1])
    }
}

/// The listing of a table nested in a `Code` attribute: its heading line, then one line per
/// entry (for a `LineNumberTable`, `line N: P`). It fails only on a local-variable or
/// stack-map table with entries whose names do not resolve.
fn table_attribute_lines(cp: &ConstantPool, attribute: &AttributeInfo, out: &mut Vec<String>) -> (r: Result<(), ClassFileError>)
    ensures
        final(out)@.len() >= old(out)@.len(),
        forall|i: int| 0 <= i < old(out)@.len() ==> final(out)@[i] == old(out)@[i],
        r is Err ==> table_listing_fails(cp.entries@, *attribute),
        r is Ok && attribute is LineNumberTable ==> {
            let n = old(out)@.len();
            let t = attribute->LineNumberTable_line_number_table@;
            &&& final(out)@.len() == n + 1 + t.len()
            &&& final(out)@[n as int]@ == "      LineNumberTable:"@
            &&& forall|j: int| 0 <= j < t.len() ==> final(out)@[n + 1 + j]@ == "        line "@
                + decimal((#[trigger] t[j]).line_number as nat) + ": "@ + decimal(t[j].start_pc as nat)
        },
        r is Ok && attribute is LocalVariableTable ==> {
            let n = old(out)@.len();
            let t = attribute->LocalVariableTable_local_variable_table@;
            &&& final(out)@.len() == n + 2 + t.len()
            &&& final(out)@[n as int]@ == "      LocalVariableTable:"@
            &&& forall|j: int| 0 <= j < t.len() ==> final(out)@[n + 2 + j]@ == local_variable_row(cp.entries@, #[trigger] t[j])
        },
        r is Ok && attribute is StackMapTable ==> {
            let n = old(out)@.len();
            let fs = attribute->StackMapTable_stack_map_table@;
            let ft = frames_text(cp.entries@, fs, fs.len());
            &&& final(out)@.len() == n + 1 + ft.len()
            &&& final(out)@[n as int]@ == "      StackMapTable: number_of_entries = "@ + decimal(fs.len())
            &&& forall|j: int| 0 <= j < ft.len() ==> final(out)@[n + 1 + j]@ == #[trigger] ft[j]
        },
{
    let ghost start = out@;
    match attribute {
        AttributeInfo::LineNumberTable { line_number_table } => {
            out.push(lit("      LineNumberTable:"));
            let ghost h = out@;
            let mut k: usize = 0;
            while k < line_number_table.len()
                invariant
                    start == old(out)@,
                    attribute is LineNumberTable,
                    attribute->LineNumberTable_line_number_table == *line_number_table,
                    k <= line_number_table@.len(),
                    h.len() == start.len() + 1,
                    h[start.len() as int]@ == "      LineNumberTable:"@,
                    forall|i: int| 0 <= i < start.len() ==> h[i] == start[i],
                    out@.len() == h.len() + k,
                    forall|i: int| 0 <= i < h.len() ==> out@[i] == h[i],
                    forall|j: int| 0 <= j < k ==> out@[h.len() + j]@ == "        line "@
                        + decimal((#[trigger] line_number_table@[j]).line_number as nat) + ": "@ + decimal(line_number_table@[j].start_pc as nat),
                decreases line_number_table@.len() - k,
            {
                let e = line_number_table[k];
                let mut l = lit("        line ");
                push_decimal(&mut l, e.line_number as u64);
                push_str(&mut l, ": ");
                push_decimal(&mut l, e.start_pc as u64);
                assert(l@ =~= "        line "@ + decimal(e.line_number as nat) + ": "@ + decimal(e.start_pc as nat));
                out.push(l);
                k = k + 1;
            }
            proof {
                let t = attribute->LineNumberTable_line_number_table@;
                assert(t == line_number_table@);
                assert(out@[start.len() as int] == h[start.len() as int]);
                assert forall|j: int| 0 <= j < t.len() implies out@[start.len() + 1 + j]@ == "        line "@
                    + decimal((#[trigger] t[j]).line_number as nat) + ": "@ + decimal(t[j].start_pc as nat) by {
                    assert(t[j] == line_number_table@[j]);
                }
            }
        },
        AttributeInfo::LocalVariableTable { local_variable_table } => {
            out.push(lit("      LocalVariableTable:"));
            out.push(lit("        Start  Length  Slot  Name   Signature"));
            let ghost h = out@;
            let mut k: usize = 0;
            while k < local_variable_table.len()
                invariant
                    start == old(out)@,
                    attribute is LocalVariableTable,
                    attribute->LocalVariableTable_local_variable_table == *local_variable_table,
                    h[start.len() as int]@ == "      LocalVariableTable:"@,
                    forall|i: int| 0 <= i < start.len() ==> h[i] == start[i],
                    h.len() == start.len() + 2,
                    k <= local_variable_table@.len(),
                    out@.len() == h.len() + k,
                    forall|i: int| 0 <= i < h.len() ==> out@[i] == h[i],
                    forall|x: int| 0 <= x < k ==> out@[h.len() + x]@ == local_variable_row(cp.entries@, #[trigger] local_variable_table@[x]),
                decreases local_variable_table@.len() - k,
            {
                let e = local_variable_table[k];
                let mut l = lit("         ");
                push_str(&mut l, pad_start_string(crate::text::decimal_string(e.start_pc as u64).as_str(), 4).as_str());
                push_str(&mut l, "    ");
                push_str(&mut l, pad_start_string(crate::text::decimal_string(e.length as u64).as_str(), 4).as_str());
                push_str(&mut l, "    ");
                push_str(&mut l, pad_start_string(crate::text::decimal_string(e.index as u64).as_str(), 2).as_str());
                push_char(&mut l, ' ');
                let name = match cp.get_utf8_content(e.name_index) {
                    Ok(n) => n,
                    Err(err) => {
                        assert(local_variable_table@[k as int] == e);
                        return Err(err);
                    },
                };
                push_str(&mut l, pad_start_string(name.as_str(), 5).as_str());
                push_str(&mut l, "   ");
                let sig = match cp.get_utf8_content(e.descriptor_index) {
                    Ok(n) => n,
                    Err(err) => {
                        assert(local_variable_table@[k as int] == e);
                        return Err(err);
                    },
                };
                push_str(&mut l, sig.as_str());
                assert(l@ =~= local_variable_row(cp.entries@, e));
                out.push(l);
                k = k + 1;
            }
        },
        AttributeInfo::StackMapTable { stack_map_table } => {
            push_line(out, "      StackMapTable: number_of_entries = ", stack_map_table.len() as u64, "");
            proof {
                reveal_strlit("");
                assert(out@.last()@ =~= "      StackMapTable: number_of_entries = "@ + decimal(stack_map_table@.len()));
            }
            let ghost h = out@;
            let mut k: usize = 0;
            while k < stack_map_table.len()
                invariant
                    start == old(out)@,
                    attribute is StackMapTable,
                    attribute->StackMapTable_stack_map_table == *stack_map_table,
                    h[start.len() as int]@ == "      StackMapTable: number_of_entries = "@ + decimal(stack_map_table@.len()),
                    forall|i: int| 0 <= i < start.len() ==> h[i] == start[i],
                    h.len() == start.len() + 1,
                    k <= stack_map_table@.len(),
                    out@.len() == h.len() + frames_text(cp.entries@, stack_map_table@, k as nat).len(),
                    forall|i: int| 0 <= i < h.len() ==> out@[i] == h[i],
                    forall|x: int| 0 <= x < frames_text(cp.entries@, stack_map_table@, k as nat).len() ==> out@[h.len() + x]@
                        == #[trigger] frames_text(cp.entries@, stack_map_table@, k as nat)[x],
                decreases stack_map_table@.len() - k,
            {
                let ghost before = out@;
                match frame_lines(cp, &stack_map_table[k], out) {
                    Ok(()) => {
                        proof {
                            let a = frames_text(cp.entries@, stack_map_table@, k as nat);
                            let b = frame_text(cp.entries@, stack_map_table@[k as int]);
                            assert(frames_text(cp.entries@, stack_map_table@, (k + 1) as nat) == a + b);
                            assert forall|x: int| 0 <= x < (a + b).len() implies out@[h.len() + x]@ == #[trigger] (a + b)[x] by {
                                if x < a.len() {
                                    assert(out@[h.len() + x] == before[h.len() + x]);
                                } else {
                                    assert(b[x - a.len()] == (a + b)[x]);
                                }
                            }
                        }
                    },
                    Err(err) => {
                        assert(frame_fails(cp.entries@, stack_map_table@[k as int]));
                        return Err(err);
                    },
                }
                k = k + 1;
            }
        },
        _ => {},
    }
    Ok(())
}

/// The lines of a `Code` attribute: sizes, the instruction listing with comments, the
/// exception table, and the nested tables.
pub fn code_lines(cp: &ConstantPool, this_class: u16, code_attribute: &AttributeInfo, arguments: u64, out: &mut Vec<String>) -> (r: Result<(), ClassFileError>)
    ensures
        r is Err ==> code_listing_fails(cp.entries@, this_class, *code_attribute),
        r is Ok && code_attribute is Code ==> {
            let n = old(out)@.len();
            &&& final(out)@.len() >= n + 2
            &&& final(out)@.subrange(0, n as int) == old(out)@
            &&& final(out)@[n as int]@ == "    Code:"@
            &&& final(out)@[n as int + 1]@ == sizes_line_spec(
                code_attribute->Code_max_stack as nat,
                code_attribute->Code_max_locals as nat,
                arguments as nat,
            )
            &&& {
                let c = code_attribute->Code_code@.dom().len();
                let x = code_attribute->Code_exception_table@;
                x.len() > 0 ==> {
                    &&& final(out)@.len() >= n + 4 + c + x.len()
                    &&& final(out)@[n as int + 2 + c]@ == "      Exception table:"@
                    &&& final(out)@[n as int + 3 + c]@ == "         from    to  target type"@
                    &&& forall|k: int| 0 <= k < x.len() ==> final(out)@[n + 4 + c + k]@ == exception_row(cp.entries@, #[trigger] x[k])
                }
            }
            &&& exists|es: Seq<(u32, BytecodeInstruction)>| #[trigger] code_listed(
                cp.entries@, this_class, code_attribute->Code_code@, final(out)@, n as int + 2, es)
        },
{
    match code_attribute {
        AttributeInfo::Code { max_stack, max_locals, code, exception_table, attributes } => {
            let mut head: Vec<String> = Vec::new();
            head.push(lit("    Code:"));
            let mut l = lit("      stack=");
            push_decimal(&mut l, *max_stack as u64);
            push_str(&mut l, ", locals=");
            push_decimal(&mut l, *max_locals as u64);
            push_str(&mut l, ", args_size=");
            push_decimal(&mut l, arguments);
            assert(l@ =~= sizes_line_spec(*max_stack as nat, *max_locals as nat, arguments as nat));
            head.push(l);
            let mut inst: Vec<String> = Vec::new();
            let iter = code.iter();
            let ghost all = iter.remaining();
            proof {
                broadcast use vstd::std_specs::btree::group_btree_axioms;
                assert(key_obeys_cmp_spec::<u32>());
            }
            for entry in it: iter
                invariant
                    it.seq() == all,
                    all == spec_btree_map_iter(code).remaining(),
                    code_attribute is Code,
                    code_attribute->Code_code == *code,
                    inst@.len() == it.index(),
                    forall|j: int| 0 <= j < it.index() ==> (#[trigger] inst@[j])@ == listing_line_spec(
                        cp.entries@, this_class, *all[j].0, *all[j].1),
            {
                let (position, instruction) = entry;
                proof {
                    broadcast use vstd::std_specs::btree::group_btree_axioms;
                    assert(all == spec_btree_map_iter(code).remaining());
                    assert(entry == all[it.index() as int]);
                    assert(code@.contains_key(*position) && code@[*position] == *instruction);
                }
                if !listable(*position, instruction) {
                    return Err(ClassFileError::BranchOutOfRange { position: *position });
                }
                let line = listing_line(cp, this_class, *position, instruction);
                if line.is_err() {
                    return Err(line.unwrap_err());
                }
                inst.push(line.unwrap());
            }
            let mut body: Vec<String> = Vec::new();
            if exception_table.len() > 0 {
                body.push(lit("      Exception table:"));
                body.push(lit("         from    to  target type"));
                let mut k: usize = 0;
                while k < exception_table.len()
                    invariant
                        code_attribute is Code,
                        code_attribute->Code_exception_table == *exception_table,
                        k <= exception_table@.len(),
                        body@.len() == 2 + k,
                        body@[0]@ == "      Exception table:"@,
                        body@[1]@ == "         from    to  target type"@,
                        forall|x: int| 0 <= x < k ==> body@[2 + x]@ == exception_row(cp.entries@, #[trigger] exception_table@[x]),
                    decreases exception_table@.len() - k,
                {
                    let e = exception_table[k];
                    let mut row = lit("          ");
                    push_decimal(&mut row, e.start_pc as u64);
                    push_str(&mut row, "  ");
                    push_decimal(&mut row, e.end_pc as u64);
                    push_str(&mut row, "  ");
                    push_decimal(&mut row, e.handler_pc as u64);
                    push_str(&mut row, "   ");
                    if e.catch_type == 0 {
                        push_str(&mut row, "any");
                    } else {
                        push_str(&mut row, "Class ");
                        let c = match cp.get_class_name(e.catch_type) {
                            Ok(c) => c,
                            Err(err) => {
                                assert(exception_table@[k as int].catch_type != 0);
                                return Err(err);
                            },
                        };
                        push_str(&mut row, c.as_str());
                    }
                    assert(row@ =~= exception_row(cp.entries@, e));
                    body.push(row);
                    k = k + 1;
                }
            }
            let ghost bex = body@;
            let mut k: usize = 0;
            while k < attributes.len()
                invariant
                    code_attribute is Code,
                    code_attribute->Code_attributes == *attributes,
                    body@.len() >= bex.len(),
                    forall|i: int| 0 <= i < bex.len() ==> body@[i] == bex[i],
                decreases attributes@.len() - k,
            {
                match table_attribute_lines(cp, &attributes[k], &mut body) {
                    Ok(()) => {},
                    Err(err) => {
                        assert(attributes@[k as int] == attributes[k as int]);
                        return Err(err);
                    },
                }
                k = k + 1;
            }
            let ghost n = out@.len();
            let ghost h = head@;
            let ghost ins = inst@;
            let ghost bd = body@;
            out.append(&mut head);
            out.append(&mut inst);
            out.append(&mut body);
            proof {
                broadcast use vstd::std_specs::btree::group_btree_axioms;
                let es = all.map_values(|kv: (&u32, &BytecodeInstruction)| (*kv.0, *kv.1));
                assert(ins.len() == all.len());
                                assert(es.len() == code@.dom().len());
                broadcast use vstd::laws_cmp::group_laws_cmp;
                let ks = all.map_values(|kv: (&u32, &BytecodeInstruction)| *kv.0);
                assert(vstd::std_specs::btree::increasing_seq(ks));
                assert(vstd::laws_cmp::obeys_cmp::<u32>());
                assert forall|a: int, b: int| 0 <= a < b < es.len() implies es[a].0 < es[b].0 by {
                    assert(ks[a] == es[a].0);
                    assert(ks[b] == es[b].0);
                    assert(ks[a].cmp_spec(&ks[b]) is Less);
                }
                assert forall|a: int| 0 <= a < es.len() implies out@[n + 2 + a]@ == listing_line_spec(
                    cp.entries@, this_class, (#[trigger] es[a]).0, es[a].1) by {
                    assert(out@[n + 2 + a] == ins[a]);
                }
                assert(code_listed(cp.entries@, this_class, code@, out@, n as int + 2, es));
                assert forall|x: int| 0 <= x < bd.len() implies out@[n + 2 + ins.len() + x] == bd[x] by {}
                if exception_table@.len() > 0 {
                    assert(bd[0] == bex[0] && bd[1] == bex[1]);
                    assert(out@[n as int + 2 + ins.len()] == bd[0]);
                    assert(out@[n as int + 3 + ins.len()] == bd[1]);
                    assert forall|k2: int| 0 <= k2 < exception_table@.len() implies out@[n + 4 + ins.len() + k2]@
                        == exception_row(cp.entries@, #[trigger] exception_table@[k2]) by {
                        assert(bd[2 + k2] == bex[2 + k2]);
                        assert(out@[n + 4 + ins.len() + k2] == bd[2 + k2]);
                    }
                }
            }
            assert(out@.subrange(0, n as int) =~= old(out)@);
            assert(out@[n as int] == h[0]);
            assert(out@[n as int + 1] == h[1]);
            Ok(())
        },
        _ => Ok(()),
    }
}

/// `      stack=S, locals=L, args_size=A`.
pub open spec fn sizes_line_spec(stack: nat, locals: nat, arguments: nat) -> Seq<char> {
    "      stack="@ + decimal(stack) + ", locals="@ + decimal(locals) + ", args_size="@ + decimal(arguments)
}


/// The listing line of `ins` at `position`: offset, instruction text, and the comment that
/// names what it refers to.
pub fn listing_line(cp: &ConstantPool, this_class: u16, position: u32, ins: &BytecodeInstruction) -> (r: Result<String, ClassFileError>)
    requires
        targets_in_range(position as int, *ins, 4294967296),
        ins matches BytecodeInstruction::TableSwitch { low, offsets, .. } ==> low + offsets@.len() - 1 <= i32::MAX,
    ensures
        match r {
            Ok(s) => comment_of(cp.entries@, this_class, *ins) is Ok && s@ == instruction_line_spec(
                position as nat,
                instruction_text(position as int, *ins),
                comment_of(cp.entries@, this_class, *ins)->Ok_0,
            ),
            Err(e) => comment_of(cp.entries@, this_class, *ins) == Err::<Option<Seq<char>>, ClassFileError>(e),
        },
{
    let text = get_opcode_and_arguments_string(position, ins);
    let comment = get_comment(cp, this_class, ins)?;
    Ok(instruction_line(position, &text, &comment))
}

/// `es` holds the entries of `code` in ascending key order, and the lines from `start` on
/// list them one per line.
pub open spec fn code_listed(cp: Seq<ConstantPoolInfo>, this_class: u16, code: Map<u32, BytecodeInstruction>, lines: Seq<String>, start: int, es: Seq<(u32, BytecodeInstruction)>) -> bool {
    &&& es.len() == code.dom().len()
    &&& forall|a: int, b: int| 0 <= a < b < es.len() ==> es[a].0 < es[b].0
    &&& forall|a: int| 0 <= a < es.len() ==> code.contains_key(#[trigger] es[a].0) && code[es[a].0] == es[a].1
    &&& lines.len() >= start + es.len()
    &&& forall|a: int| 0 <= a < es.len() ==> lines[start + a]@ == listing_line_spec(
        cp, this_class, (#[trigger] es[a]).0, es[a].1)
}

/// The listing line of the instruction `ins` at offset `k`.
pub open spec fn listing_line_spec(cp: Seq<ConstantPoolInfo>, this_class: u16, k: u32, ins: BytecodeInstruction) -> Seq<char> {
    instruction_line_spec(k as nat, instruction_text(k as int, ins), comment_of(cp, this_class, ins)->Ok_0)
}

/// Whether `ins` at `position` can be listed: its branch targets are offsets, and a
/// `tableswitch` has rows whose labels fit in 32 bits.
pub open spec fn listable_spec(position: u32, ins: BytecodeInstruction) -> bool {
    targets_in_range(position as int, ins, 4294967296) && (ins matches BytecodeInstruction::TableSwitch { low, offsets, .. } ==> low + offsets@.len() - 1 <= i32::MAX)
}

/// One row of an exception-table listing: the range, the handler, and the caught class
/// (`any` for a handler of every exception).
pub open spec fn exception_row(cp: Seq<ConstantPoolInfo>, e: crate::attributes::ExceptionTableEntry) -> Seq<char> {
    "          "@ + decimal(e.start_pc as nat) + "  "@ + decimal(e.end_pc as nat) + "  "@ + decimal(e.handler_pc as nat)
        + "   "@ + if e.catch_type == 0 { "any"@ } else { "Class "@ + class_name(cp, e.catch_type)->Ok_0 }
}

/// Listing a `Code` attribute fails: an instruction cannot be listed or its comment does not
/// resolve, an exception handler's class does not resolve, or a nested table does not.
pub open spec fn code_listing_fails(cp: Seq<ConstantPoolInfo>, this_class: u16, a: AttributeInfo) -> bool {
    match a {
        AttributeInfo::Code { code, exception_table, attributes, .. } => {
            ||| exists|k: u32| #[trigger] code@.contains_key(k) && (!listable_spec(k, code@[k])
                || comment_of(cp, this_class, code@[k]) is Err)
            ||| exists|e: int| 0 <= e < exception_table@.len() && (#[trigger] exception_table@[e]).catch_type != 0
                && class_name(cp, exception_table@[e].catch_type) is Err
            ||| exists|j: int| 0 <= j < attributes@.len() && table_listing_fails(cp, #[trigger] attributes@[j])
        },
        _ => false,
    }
}

/// Whether `get_opcode_and_arguments_string` may list `ins` at `position`.
fn listable(position: u32, ins: &BytecodeInstruction) -> (r: bool)
    ensures
        r == listable_spec(position, *ins),
{
    let ok = targets_within(position, ins, 4294967296);
    match ins {
        BytecodeInstruction::TableSwitch { low, offsets, .. } => {
            let room: i64 = 2147483648 - *low as i64;
            ok && (offsets.len() as u64) <= room as u64
        },
        _ => ok,
    }
}

/// `Signature: #i`, then the signature text from the comment column.
pub fn signature_line(cp: &ConstantPool, indent: &str, index: u16, column: usize) -> (r: Result<String, ClassFileError>)
    ensures
        match r {
            Ok(s) => exists|t: Seq<char>| utf8_content(cp.entries@, index) == Ok::<Seq<char>, ClassFileError>(t)
                && s@ == pad_end(indent@ + "Signature: "@ + seq!['#'] + decimal(index as nat), column as int) + "// "@ + t,
            Err(e) => utf8_content(cp.entries@, index) == Err::<Seq<char>, ClassFileError>(e),
        },
{
    let mut label = lit(indent);
    push_str(&mut label, "Signature: ");
    let text = cp.get_utf8_content(index)?;
    Ok(with_comment(index_line(label.as_str(), index), column, &text))
}

/// One row of a `MethodParameters` listing: the name (or `<no name>`) in a 31-column field,
/// then the parameter's keywords.
pub open spec fn parameter_row(cp: Seq<ConstantPoolInfo>, m: crate::attributes::MethodParameter) -> Seq<char> {
    pad_end("      "@ + if m.name_index == 0 { "<no name>"@ } else { utf8_content(cp, m.name_index)->Ok_0 }, 37)
        + modifier_words(m.access_flags@)
}

/// From line `j` on, the `MethodParameters` heading lines and then one row per parameter.
pub open spec fn parameters_at(cp: Seq<ConstantPoolInfo>, ps: Seq<crate::attributes::MethodParameter>, lines: Seq<String>, j: int) -> bool {
    &&& 0 <= j && j + 2 + ps.len() <= lines.len()
    &&& lines[j]@ == "    MethodParameters:"@
    &&& lines[j + 1]@ == "      Name                           Flags"@
    &&& forall|x: int| 0 <= x < ps.len() ==> lines[j + 2 + x]@ == parameter_row(cp, #[trigger] ps[x])
}

/// The parsed descriptor of `method` gives `args` argument slots: its parameters, and
/// `this` unless the method is static.
pub open spec fn method_arguments(cp: Seq<ConstantPoolInfo>, method: MethodInfo, args: int) -> bool {
    exists|d: MethodDescriptor|
        utf8_content(cp, method.descriptor_index) == Ok::<Seq<char>, ClassFileError>(method_descriptor_of(d.parameter_types@, d.return_type))
            && (d.parameter_types@.len() < u64::MAX ==> args == d.parameter_types@.len()
                + if method.access_flags@.contains(AccessFlag::Static) { 0int } else { 1int })
}

/// A `Code` attribute of `method` shows in the lines as its `Code:` line followed by the
/// sizes line with the method's argument slots; a `MethodParameters` attribute as its
/// heading and one row per parameter.
pub open spec fn code_shown(cp: Seq<ConstantPoolInfo>, method: MethodInfo, a: AttributeInfo, lines: Seq<String>) -> bool {
    &&& a matches AttributeInfo::MethodParameters { parameters } ==> exists|j: int| #[trigger] parameters_at(cp, parameters@, lines, j)
    &&& a is Code ==> exists|j: int, args: int| #![trigger lines[j], method_arguments(cp, method, args)] 0 <= j && j + 1 < lines.len() && method_arguments(cp, method, args)
        && lines[j]@ == "    Code:"@ && lines[j + 1]@ == sizes_line_spec(
            a->Code_max_stack as nat, a->Code_max_locals as nat, args as nat)
}

/// Listing one attribute of a method can fail.
pub open spec fn method_attribute_fails(cp: Seq<ConstantPoolInfo>, this_class: u16, a: AttributeInfo) -> bool {
    match a {
        AttributeInfo::Code { .. } => code_listing_fails(cp, this_class, a),
        AttributeInfo::MethodParameters { parameters } => exists|j: int| 0 <= j < parameters@.len()
            && (#[trigger] parameters@[j]).name_index != 0 && utf8_content(cp, parameters@[j].name_index) is Err,
        AttributeInfo::Signature { signature_index } => utf8_content(cp, signature_index) is Err,
        _ => false,
    }
}

proof fn lemma_code_shown_kept(cp: Seq<ConstantPoolInfo>, method: MethodInfo, a: AttributeInfo, lines: Seq<String>, more: Seq<String>)
    requires
        code_shown(cp, method, a, lines),
        more.len() >= lines.len(),
        forall|x: int| 0 <= x < lines.len() ==> more[x] == lines[x],
    ensures
        code_shown(cp, method, a, more),
{
    if a is MethodParameters {
        let ps = a->MethodParameters_parameters@;
        let j = choose|j: int| #[trigger] parameters_at(cp, ps, lines, j);
        assert(more[j] == lines[j] && more[j + 1] == lines[j + 1]);
        assert forall|x: int| 0 <= x < ps.len() implies more[j + 2 + x]@ == parameter_row(cp, #[trigger] ps[x]) by {
            assert(more[j + 2 + x] == lines[j + 2 + x]);
        }
        assert(parameters_at(cp, ps, more, j));
    }
    if a is Code {
        let (j, args) = choose|j: int, args: int| #![trigger lines[j], method_arguments(cp, method, args)] 0 <= j && j + 1 < lines.len() && method_arguments(cp, method, args)
            && lines[j]@ == "    Code:"@ && lines[j + 1]@ == sizes_line_spec(
                a->Code_max_stack as nat, a->Code_max_locals as nat, args as nat);
        assert(more[j] == lines[j] && more[j + 1] == lines[j + 1]);
    }
}

proof fn lemma_code_shown_shift(cp: Seq<ConstantPoolInfo>, method: MethodInfo, a: AttributeInfo, lines: Seq<String>, more: Seq<String>, off: int)
    requires
        code_shown(cp, method, a, lines),
        off >= 0,
        more.len() >= lines.len() + off,
        forall|x: int| 0 <= x < lines.len() ==> more[off + x] == lines[x],
    ensures
        code_shown(cp, method, a, more),
{
    if a is MethodParameters {
        let ps = a->MethodParameters_parameters@;
        let j = choose|j: int| #[trigger] parameters_at(cp, ps, lines, j);
        assert(more[off + j] == lines[j] && more[off + j + 1] == lines[j + 1]);
        assert forall|x: int| 0 <= x < ps.len() implies more[off + j + 2 + x]@ == parameter_row(cp, #[trigger] ps[x]) by {
            assert(more[off + j + 2 + x] == lines[j + 2 + x]);
        }
        assert(parameters_at(cp, ps, more, off + j));
    }
    if a is Code {
        let (j, args) = choose|j: int, args: int| #![trigger lines[j], method_arguments(cp, method, args)] 0 <= j && j + 1 < lines.len() && method_arguments(cp, method, args)
            && lines[j]@ == "    Code:"@ && lines[j + 1]@ == sizes_line_spec(
                a->Code_max_stack as nat, a->Code_max_locals as nat, args as nat);
        assert(more[off + j] == lines[j] && more[off + j + 1] == lines[j + 1]);
    }
}

/// The lines of one method: declaration, descriptor, flags and its attributes.
pub fn method_lines(cp: &ConstantPool, this_class: u16, is_enum: bool, method: &MethodInfo) -> (r: Result<Vec<String>, ClassFileError>)
    requires
        cp.entries@.len() <= u16::MAX,
    ensures
        r matches Ok(v) ==> v@.len() >= 3 && declares_method(cp.entries@, this_class, is_enum, *method, v@[0]@)
            && (exists|d: Seq<char>| utf8_content(cp.entries@, method.descriptor_index) == Ok::<Seq<char>, ClassFileError>(d)
                && v@[1]@ == "    descriptor: "@ + d)
            && v@[2]@ == flags_line_spec("    "@, method.access_flags@)
            && forall|k: int| 0 <= k < method.attributes@.len() ==> #[trigger] code_shown(
                cp.entries@, *method, method.attributes@[k], v@),
        r is Err ==> method_declaration_fails(cp.entries@, this_class, *method)
            || (utf8_content(cp.entries@, method.descriptor_index) matches Ok(desc) && !method_descriptor_valid(desc))
            || exists|k: int| 0 <= k < method.attributes@.len() && method_attribute_fails(cp.entries@, this_class,
                #[trigger] method.attributes@[k]),
{
    let layout = pool_layout(cp);
    let mut out: Vec<String> = Vec::new();
    out.push(method_declaration(cp, this_class, is_enum, method)?);
    let descriptor = cp.get_utf8_content(method.descriptor_index)?;
    let mut d = lit("    descriptor: ");
    push_str(&mut d, descriptor.as_str());
    out.push(d);
    out.push(flags_line("    ", method.access_flags.as_slice()));
    let ghost first3 = out@;
    let parsed = parse_method_descriptor(descriptor.as_str())?;
    let is_static = has_flag(method.access_flags.as_slice(), AccessFlag::Static);
    let arguments = parameter_slots(parsed.parameter_types.len(), is_static);
    let ghost args = arguments;
    assert(method_arguments(cp.entries@, *method, args as int)) by {
        assert(method_descriptor_of(parsed.parameter_types@, parsed.return_type) == descriptor@);
    }
    let mut body: Vec<String> = Vec::new();
    let mut k: usize = 0;
    while k < method.attributes.len()
        invariant
            method_arguments(cp.entries@, *method, args as int),
            arguments == args,
            forall|k2: int| 0 <= k2 < k ==> #[trigger] code_shown(cp.entries@, *method, method.attributes@[k2], body@),
        decreases method.attributes@.len() - k,
    {
        let ghost before = body@;
        match &method.attributes[k] {
            AttributeInfo::Code { .. } => {
                match code_lines(cp, this_class, &method.attributes[k], arguments, &mut body) {
                    Ok(()) => {},
                    Err(e) => {
                        assert(method_attribute_fails(cp.entries@, this_class, method.attributes@[k as int]));
                        return Err(e);
                    },
                }
            },
            AttributeInfo::MethodParameters { parameters } => {
                body.push(lit("    MethodParameters:"));
                body.push(lit("      Name                           Flags"));
                let ghost b0 = body@;
                let mut j: usize = 0;
                while j < parameters.len()
                    invariant
                        0 <= k < method.attributes@.len(),
                        method.attributes@[k as int] is MethodParameters,
                        method.attributes@[k as int]->MethodParameters_parameters == *parameters,
                        b0.len() == before.len() + 2,
                        b0[before.len() as int]@ == "    MethodParameters:"@,
                        b0[before.len() as int + 1]@ == "      Name                           Flags"@,
                        forall|x: int| 0 <= x < before.len() ==> b0[x] == before[x],
                        j <= parameters@.len(),
                        body@.len() == b0.len() + j,
                        forall|x: int| 0 <= x < b0.len() ==> body@[x] == b0[x],
                        forall|x: int| 0 <= x < j ==> body@[b0.len() + x]@ == parameter_row(cp.entries@, #[trigger] parameters@[x]),
                    decreases parameters@.len() - j,
                {
                    let mut row = lit("      ");
                    let p = &parameters[j];
                    assert(parameters@[j as int] == *p);
                    if p.name_index == 0 {
                        push_str(&mut row, "<no name>");
                    } else {
                        let n = match cp.get_utf8_content(p.name_index) {
                            Ok(v) => v,
                            Err(err) => {
                                assert(parameters@[j as int] == *p);
                                return Err(err);
                            },
                        };
                        push_str(&mut row, n.as_str());
                    }
                    pad_end_in_place(&mut row, 37);
                    let m = modifiers(p.access_flags.as_slice());
                    push_str(&mut row, m.as_str());
                    proof {
                        reveal_strlit("<no name>");
                    }
                    body.push(row);
                    j = j + 1;
                }
                proof {
                    let ps = parameters@;
                    assert forall|x: int| 0 <= x < ps.len() implies body@[before.len() + 2 + x]@ == parameter_row(cp.entries@, #[trigger] ps[x]) by {
                        assert(body@[b0.len() + x] == body@[before.len() + 2 + x]);
                    }
                    assert(body@[before.len() as int] == b0[before.len() as int]);
                    assert(body@[before.len() as int + 1] == b0[before.len() as int + 1]);
                    assert(parameters_at(cp.entries@, ps, body@, before.len() as int));
                }
            },
            AttributeInfo::Signature { signature_index } => {
                body.push(signature_line(cp, "    ", *signature_index, layout.comment_start)?);
            },
            _ => {},
        }
        proof {
            assert forall|k2: int| 0 <= k2 <= k implies #[trigger] code_shown(cp.entries@, *method, method.attributes@[k2], body@) by {
                if k2 < k {
                    lemma_code_shown_kept(cp.entries@, *method, method.attributes@[k2], before, body@);
                }
            }
        }
        k = k + 1;
    }
    let ghost b = body@;
    out.append(&mut body);
    proof {
        assert forall|k2: int| 0 <= k2 < method.attributes@.len() implies #[trigger] code_shown(cp.entries@, *method, method.attributes@[k2], out@) by {
            lemma_code_shown_shift(cp.entries@, *method, method.attributes@[k2], b, out@, 3);
        }
    }
    assert(out@[0] == first3[0] && out@[1] == first3[1] && out@[2] == first3[2]);
    Ok(out)
}

/// `SourceFile: "Name.java"`.
pub fn source_file_line(cp: &ConstantPool, index: u16) -> (r: Result<String, ClassFileError>)
    ensures
        match r {
            Ok(s) => exists|t: Seq<char>| utf8_content(cp.entries@, index) == Ok::<Seq<char>, ClassFileError>(t)
                && s@ == "SourceFile: \""@ + t + seq!['"'],
            Err(e) => utf8_content(cp.entries@, index) == Err::<Seq<char>, ClassFileError>(e),
        },
{
    let mut l = lit("SourceFile: \"");
    let n = cp.get_utf8_content(index)?;
    push_str(&mut l, n.as_str());
    push_char(&mut l, '"');
    assert(l@ =~= "SourceFile: \""@ + n@ + seq!['"']);
    Ok(l)
}

fn bootstrap_argument(cp: &ConstantPool, arg: u16) -> (r: Result<String, ClassFileError>)
    ensures
        r is Err <==> argument_fails(cp.entries@, arg),
{
    match cp.entry(arg)? {
        ConstantPoolInfo::String { string_index } => cp.get_utf8_content(*string_index),
        ConstantPoolInfo::MethodType { descriptor_index } => cp.get_utf8_content(*descriptor_index),
        ConstantPoolInfo::MethodHandle { reference_kind, reference_index } => {
            let mut s = java_repr(*reference_kind);
            push_char(&mut s, ' ');
            let m = cp.get_method_ref(*reference_index)?;
            push_str(&mut s, m.as_str());
            Ok(s)
        },
        ConstantPoolInfo::Class { name_index } => cp.get_utf8_content(*name_index),
        ConstantPoolInfo::Integer { bytes } => {
            let v: i64 = if *bytes >= 2147483648 { *bytes as i64 - 4294967296 } else { *bytes as i64 };
            Ok(crate::text::signed_decimal_string(v))
        },
        _ => Err(ClassFileError::WrongEntryType { index: arg }),
    }
}

/// One row of an `InnerClasses` listing: the flags and indices, then from the comment column
/// the names they stand for.
pub open spec fn inner_class_row(cp: Seq<ConstantPoolInfo>, col: int, c: Class) -> Seq<char> {
    let head = "  "@ + modifiers_prefix(c.inner_class_access_flags@);
    let inner = class_name(cp, c.inner_class_info_index)->Ok_0;
    if c.outer_class_info_index == 0 || c.inner_name_index == 0 {
        pad_end(head + seq!['#'] + decimal(c.inner_class_info_index as nat) + seq![';'], col) + "// "@ + ("class "@ + inner)
    } else {
        pad_end(head + seq!['#'] + decimal(c.inner_name_index as nat) + "= #"@ + decimal(c.inner_class_info_index as nat)
            + " of #"@ + decimal(c.outer_class_info_index as nat) + seq![';'], col) + "// "@
            + (utf8_content(cp, c.inner_name_index)->Ok_0 + "=class "@ + inner + " of class "@
            + class_name(cp, c.outer_class_info_index)->Ok_0)
    }
}

/// From line `j` on, the `InnerClasses` heading and then one row per entry.
pub open spec fn inner_classes_at(cp: Seq<ConstantPoolInfo>, col: int, cs: Seq<Class>, lines: Seq<String>, j: int) -> bool {
    &&& 0 <= j && j + 1 + cs.len() <= lines.len()
    &&& lines[j]@ == "InnerClasses:"@
    &&& forall|x: int| 0 <= x < cs.len() ==> lines[j + 1 + x]@ == inner_class_row(cp, col, #[trigger] cs[x])
}

/// From line `j` on, the `Record` heading and then two lines per component: its rendered
/// type and name, and its descriptor.
pub open spec fn record_at(cp: Seq<ConstantPoolInfo>, cs: Seq<RecordComponent>, lines: Seq<String>, j: int) -> bool {
    &&& 0 <= j && j + 1 + 2 * cs.len() <= lines.len()
    &&& lines[j]@ == "Record:"@
    &&& forall|x: int| 0 <= x < cs.len() ==> {
        let desc = utf8_content(cp, (#[trigger] cs[x]).descriptor_index)->Ok_0;
        &&& lines[j + 2 + 2 * x]@ == "    descriptor: "@ + desc
        &&& exists|t: Seq<char>| #[trigger] crate::classfile::converted(desc, t)
            && lines[j + 1 + 2 * x]@ == "  "@ + t + seq![' '] + utf8_content(cp, cs[x].name_index)->Ok_0 + seq![';']
    }
}

/// The lines show attribute `a`: `SourceFile` and `Signature` by their exact lines, the other
/// class attributes by their heading line.
pub open spec fn attribute_shown(cp: Seq<ConstantPoolInfo>, col: int, a: AttributeInfo, lines: Seq<String>) -> bool {
    match a {
        AttributeInfo::SourceFile { source_file_index } => exists|j: int| 0 <= j < lines.len()
            && (#[trigger] lines[j])@ == "SourceFile: \""@ + utf8_content(cp, source_file_index)->Ok_0 + seq!['"'],
        AttributeInfo::Signature { signature_index } => exists|j: int| 0 <= j < lines.len()
            && (#[trigger] lines[j])@ == pad_end("Signature: "@ + seq!['#'] + decimal(signature_index as nat), col) + "// "@
                + utf8_content(cp, signature_index)->Ok_0,
        AttributeInfo::InnerClasses { classes } => exists|j: int| #[trigger] inner_classes_at(cp, col, classes@, lines, j),
        AttributeInfo::BootstrapMethods { .. } => exists|j: int| 0 <= j < lines.len() && (#[trigger] lines[j])@ == "BootstrapMethods:"@,
        AttributeInfo::Record { components } => exists|j: int| #[trigger] record_at(cp, components@, lines, j),
        _ => true,
    }
}

/// An inner-class entry holds an index that does not resolve: the inner class, or, for a
/// named member class, its simple name or its outer class.
pub open spec fn inner_class_fails(cp: Seq<ConstantPoolInfo>, c: Class) -> bool {
    class_name(cp, c.inner_class_info_index) is Err || (c.outer_class_info_index != 0 && c.inner_name_index != 0
        && (utf8_content(cp, c.inner_name_index) is Err || class_name(cp, c.outer_class_info_index) is Err))
}

/// A bootstrap argument that cannot be shown: a string, method type or class whose text does
/// not resolve, a method handle whose method does not, or an entry of another kind.
pub open spec fn argument_fails(cp: Seq<ConstantPoolInfo>, i: u16) -> bool {
    match entry_of(cp, i) {
        Ok(ConstantPoolInfo::String { string_index }) => utf8_content(cp, string_index) is Err,
        Ok(ConstantPoolInfo::MethodType { descriptor_index }) => utf8_content(cp, descriptor_index) is Err,
        Ok(ConstantPoolInfo::MethodHandle { reference_index, .. }) => method_ref(cp, reference_index) is Err,
        Ok(ConstantPoolInfo::Class { name_index }) => utf8_content(cp, name_index) is Err,
        Ok(ConstantPoolInfo::Integer { .. }) => false,
        _ => true,
    }
}

/// A bootstrap method that cannot be shown: its reference is not a method handle, or the
/// handle's method or one of its arguments does not resolve.
pub open spec fn bootstrap_fails(cp: Seq<ConstantPoolInfo>, m: BootstrapMethod) -> bool {
    match entry_of(cp, m.bootstrap_method_ref) {
        Ok(ConstantPoolInfo::MethodHandle { reference_index, .. }) => method_ref(cp, reference_index) is Err
            || exists|a: int| 0 <= a < m.bootstrap_arguments@.len() && argument_fails(cp, #[trigger] m.bootstrap_arguments@[a]),
        _ => true,
    }
}

/// A record component whose descriptor or name does not resolve, or whose descriptor is malformed.
pub open spec fn component_fails(cp: Seq<ConstantPoolInfo>, c: RecordComponent) -> bool {
    match utf8_content(cp, c.descriptor_index) {
        Ok(d) => (!field_descriptor_valid(d) && !method_descriptor_valid(d)) || utf8_content(cp, c.name_index) is Err,
        Err(_) => true,
    }
}

/// Listing a class attribute can fail: a `SourceFile` or `Signature` whose text does not
/// resolve, or an inner-class, bootstrap or record entry with an index that does not.
pub open spec fn class_attribute_fails(cp: Seq<ConstantPoolInfo>, a: AttributeInfo) -> bool {
    match a {
        AttributeInfo::SourceFile { source_file_index } => utf8_content(cp, source_file_index) is Err,
        AttributeInfo::Signature { signature_index } => utf8_content(cp, signature_index) is Err,
        AttributeInfo::InnerClasses { classes } => exists|j: int| 0 <= j < classes@.len() && inner_class_fails(cp, #[trigger] classes@[j]),
        AttributeInfo::BootstrapMethods { methods } => exists|j: int| 0 <= j < methods@.len() && bootstrap_fails(cp, #[trigger] methods@[j]),
        AttributeInfo::Record { components } => exists|j: int| 0 <= j < components@.len() && component_fails(cp, #[trigger] components@[j]),
        _ => false,
    }
}

proof fn lemma_shown_kept(cp: Seq<ConstantPoolInfo>, col: int, a: AttributeInfo, lines: Seq<String>, more: Seq<String>)
    requires
        attribute_shown(cp, col, a, lines),
        more.len() >= lines.len(),
        forall|j: int| 0 <= j < lines.len() ==> more[j] == lines[j],
    ensures
        attribute_shown(cp, col, a, more),
{
    match a {
        AttributeInfo::SourceFile { source_file_index } => {
            let j = choose|j: int| 0 <= j < lines.len() && (#[trigger] lines[j])@ == "SourceFile: \""@ + utf8_content(cp, source_file_index)->Ok_0 + seq!['"'];
            assert(more[j] == lines[j]);
        },
        AttributeInfo::Signature { signature_index } => {
            let j = choose|j: int| 0 <= j < lines.len() && (#[trigger] lines[j])@ == pad_end("Signature: "@ + seq!['#'] + decimal(signature_index as nat), col) + "// "@
                + utf8_content(cp, signature_index)->Ok_0;
            assert(more[j] == lines[j]);
        },
        AttributeInfo::InnerClasses { classes } => {
            let j = choose|j: int| #[trigger] inner_classes_at(cp, col, classes@, lines, j);
            assert(more[j] == lines[j]);
            assert forall|x: int| 0 <= x < classes@.len() implies more[j + 1 + x]@ == inner_class_row(cp, col, #[trigger] classes@[x]) by {
                assert(more[j + 1 + x] == lines[j + 1 + x]);
            }
            assert(inner_classes_at(cp, col, classes@, more, j));
        },
        AttributeInfo::BootstrapMethods { .. } => {
            let j = choose|j: int| 0 <= j < lines.len() && (#[trigger] lines[j])@ == "BootstrapMethods:"@;
            assert(more[j] == lines[j]);
        },
        AttributeInfo::Record { components } => {
            let cs = components@;
            let j = choose|j: int| #[trigger] record_at(cp, cs, lines, j);
            assert(more[j] == lines[j]);
            assert forall|x: int| 0 <= x < cs.len() implies #[trigger] more[j + 1 + 2 * x] == lines[j + 1 + 2 * x]
                && more[j + 2 + 2 * x] == lines[j + 2 + 2 * x] by {}
            assert(record_at(cp, cs, more, j));
        },
        _ => {},
    }
}

/// The lines of the class-level attributes.
#[verifier::rlimit(60)]
pub fn class_attribute_lines(cp: &ConstantPool, attributes: &Vec<AttributeInfo>) -> (r: Result<Vec<String>, ClassFileError>)
    requires
        cp.entries@.len() <= u16::MAX,
    ensures
        r matches Ok(v) ==> forall|k: int| 0 <= k < attributes@.len() ==> attribute_shown(
            cp.entries@, layout_for(cp.entries@.len()).comment_start as int, #[trigger] attributes@[k], v@),
        r is Err ==> exists|k: int| 0 <= k < attributes@.len() && class_attribute_fails(cp.entries@, #[trigger] attributes@[k]),
{
    let layout = pool_layout(cp);
    let mut out: Vec<String> = Vec::new();
    let mut k: usize = 0;
    while k < attributes.len()
        invariant
            layout == layout_for(cp.entries@.len()),
            forall|k2: int| 0 <= k2 < k ==> attribute_shown(cp.entries@, layout.comment_start as int,
                #[trigger] attributes@[k2], out@),
        decreases attributes@.len() - k,
    {
        let mut blk: Vec<String> = Vec::new();
        match &attributes[k] {
            AttributeInfo::SourceFile { source_file_index } => {
                blk.push(source_file_line(cp, *source_file_index)?);
            },
            AttributeInfo::InnerClasses { classes } => {
                blk.push(lit("InnerClasses:"));
                let mut j: usize = 0;
                while j < classes.len()
                    invariant
                        blk@.len() >= 1,
                        blk@[0]@ == "InnerClasses:"@,
                        j <= classes@.len(),
                        blk@.len() == 1 + j,
                        layout == layout_for(cp.entries@.len()),
                        forall|x: int| 0 <= x < j ==> blk@[1 + x]@ == inner_class_row(cp.entries@, layout.comment_start as int, #[trigger] classes@[x]),
                        0 <= k < attributes@.len(),
                        attributes@[k as int] is InnerClasses,
                        attributes@[k as int]->InnerClasses_classes == *classes,
                    decreases classes@.len() - j,
                {
                    let c = &classes[j];
                    let mut l = lit("  ");
                    let m = modifiers(c.inner_class_access_flags.as_slice());
                    if m.as_str().unicode_len() > 0 {
                        push_str(&mut l, m.as_str());
                        push_char(&mut l, ' ');
                    }
                    assert(l@ =~= "  "@ + modifiers_prefix(c.inner_class_access_flags@));
                    let ghost l0 = l@;
                    assert(classes@[j as int] == *c);
                    let inner = match cp.get_class_name(c.inner_class_info_index) {
                        Ok(v) => v,
                        Err(err) => {
                            assert(classes@[j as int] == *c && inner_class_fails(cp.entries@, classes@[j as int]));
                            return Err(err);
                        },
                    };
                    if c.outer_class_info_index == 0 || c.inner_name_index == 0 {
                        push_char(&mut l, '#');
                        push_decimal(&mut l, c.inner_class_info_index as u64);
                        push_char(&mut l, ';');
                        let mut comment = lit("class ");
                        push_str(&mut comment, inner.as_str());
                        assert(l@ =~= l0 + seq!['#'] + decimal(c.inner_class_info_index as nat) + seq![';']);
                        blk.push(with_comment(l, layout.comment_start, &comment));
                    } else {
                        push_char(&mut l, '#');
                        push_decimal(&mut l, c.inner_name_index as u64);
                        push_str(&mut l, "= #");
                        push_decimal(&mut l, c.inner_class_info_index as u64);
                        push_str(&mut l, " of #");
                        push_decimal(&mut l, c.outer_class_info_index as u64);
                        push_char(&mut l, ';');
                        let mut comment = match cp.get_utf8_content(c.inner_name_index) {
                            Ok(v) => v,
                            Err(err) => {
                                assert(classes@[j as int] == *c && inner_class_fails(cp.entries@, classes@[j as int]));
                                return Err(err);
                            },
                        };
                        push_str(&mut comment, "=class ");
                        push_str(&mut comment, inner.as_str());
                        push_str(&mut comment, " of class ");
                        let outer = match cp.get_class_name(c.outer_class_info_index) {
                            Ok(v) => v,
                            Err(err) => {
                                assert(classes@[j as int] == *c && inner_class_fails(cp.entries@, classes@[j as int]));
                                return Err(err);
                            },
                        };
                        push_str(&mut comment, outer.as_str());
                        assert(l@ =~= l0 + seq!['#'] + decimal(c.inner_name_index as nat) + "= #"@ + decimal(c.inner_class_info_index as nat)
                            + " of #"@ + decimal(c.outer_class_info_index as nat) + seq![';']);
                        blk.push(with_comment(l, layout.comment_start, &comment));
                    }
                    j = j + 1;
                }
            },
            AttributeInfo::BootstrapMethods { methods } => {
                blk.push(lit("BootstrapMethods:"));
                let mut j: usize = 0;
                while j < methods.len()
                    invariant
                        blk@.len() >= 1,
                        blk@[0]@ == "BootstrapMethods:"@,
                        0 <= k < attributes@.len(),
                        attributes@[k as int] is BootstrapMethods,
                        attributes@[k as int]->BootstrapMethods_methods == *methods,
                    decreases methods@.len() - j,
                {
                    let m = &methods[j];
                    let mut l = lit("  ");
                    push_decimal(&mut l, j as u64);
                    push_str(&mut l, ": #");
                    push_decimal(&mut l, m.bootstrap_method_ref as u64);
                    push_char(&mut l, ' ');
                    match cp.entry(m.bootstrap_method_ref) {
                        Err(err) => {
                            assert(methods@[j as int] == *m && bootstrap_fails(cp.entries@, methods@[j as int]));
                            return Err(err);
                        },
                        Ok(ConstantPoolInfo::MethodHandle { reference_kind, reference_index }) => {
                            let k2 = java_repr(*reference_kind);
                            push_str(&mut l, k2.as_str());
                            push_char(&mut l, ' ');
                            let t = match cp.get_method_ref(*reference_index) {
                                Ok(v) => v,
                                Err(err) => {
                                    assert(methods@[j as int] == *m && bootstrap_fails(cp.entries@, methods@[j as int]));
                                    return Err(err);
                                },
                            };
                            push_str(&mut l, t.as_str());
                        },
                        Ok(_) => {
                            assert(methods@[j as int] == *m && bootstrap_fails(cp.entries@, methods@[j as int]));
                            return Err(ClassFileError::WrongEntryType { index: m.bootstrap_method_ref });
                        },
                    }
                    blk.push(l);
                    blk.push(lit("    Method arguments:"));
                    let mut a: usize = 0;
                    while a < m.bootstrap_arguments.len()
                        invariant
                            blk@.len() >= 1,
                            blk@[0]@ == "BootstrapMethods:"@,
                            0 <= k < attributes@.len(),
                            attributes@[k as int] is BootstrapMethods,
                            attributes@[k as int]->BootstrapMethods_methods == *methods,
                            j < methods@.len(),
                            methods@[j as int] == *m,
                            entry_of(cp.entries@, m.bootstrap_method_ref) is Ok,
                            entry_of(cp.entries@, m.bootstrap_method_ref)->Ok_0 is MethodHandle,
                        decreases m.bootstrap_arguments@.len() - a,
                    {
                        let arg = m.bootstrap_arguments[a];
                        let mut row = lit("      #");
                        push_decimal(&mut row, arg as u64);
                        push_char(&mut row, ' ');
                        let t = match bootstrap_argument(cp, arg) {
                            Ok(v) => v,
                            Err(err) => {
                                assert(methods@[j as int] == *m && m.bootstrap_arguments@[a as int] == arg && bootstrap_fails(cp.entries@, methods@[j as int]));
                                return Err(err);
                            },
                        };
                        push_str(&mut row, t.as_str());
                        blk.push(row);
                        a = a + 1;
                    }
                    j = j + 1;
                }
            },
            AttributeInfo::Record { components } => {
                blk.push(lit("Record:"));
                let mut j: usize = 0;
                while j < components.len()
                    invariant
                        blk@.len() >= 1,
                        blk@[0]@ == "Record:"@,
                        j <= components@.len(),
                        blk@.len() == 1 + 2 * j,
                        forall|x: int| 0 <= x < j ==> {
                            let desc = utf8_content(cp.entries@, (#[trigger] components@[x]).descriptor_index)->Ok_0;
                            &&& blk@[2 + 2 * x]@ == "    descriptor: "@ + desc
                            &&& exists|t: Seq<char>| #[trigger] crate::classfile::converted(desc, t)
                                && blk@[1 + 2 * x]@ == "  "@ + t + seq![' '] + utf8_content(cp.entries@, components@[x].name_index)->Ok_0 + seq![';']
                        },
                        0 <= k < attributes@.len(),
                        attributes@[k as int] is Record,
                        attributes@[k as int]->Record_components == *components,
                    decreases components@.len() - j,
                {
                    let c = &components[j];
                    let descriptor = match cp.get_utf8_content(c.descriptor_index) {
                        Ok(v) => v,
                        Err(err) => {
                            assert(components@[j as int] == *c && component_fails(cp.entries@, components@[j as int]));
                            return Err(err);
                        },
                    };
                    let t = match crate::classfile::convert_descriptor(descriptor.as_str()) {
                        Ok(v) => v,
                        Err(err) => {
                            assert(components@[j as int] == *c && component_fails(cp.entries@, components@[j as int]));
                            return Err(err);
                        },
                    };
                    let name = match cp.get_utf8_content(c.name_index) {
                        Ok(v) => v,
                        Err(err) => {
                            assert(components@[j as int] == *c && component_fails(cp.entries@, components@[j as int]));
                            return Err(err);
                        },
                    };
                    let mut l = lit("  ");
                    push_str(&mut l, t.as_str());
                    push_char(&mut l, ' ');
                    push_str(&mut l, name.as_str());
                    push_char(&mut l, ';');
                    assert(components@[j as int] == *c);
                    assert(l@ =~= "  "@ + t@ + seq![' '] + name@ + seq![';']);
                    let ghost prev = blk@;
                    let ghost lv = l@;
                    blk.push(l);
                    let mut d = lit("    descriptor: ");
                    push_str(&mut d, descriptor.as_str());
                    let ghost dv = d@;
                    blk.push(d);
                    proof {
                        assert forall|x: int| 0 <= x < j + 1 implies {
                            let desc = utf8_content(cp.entries@, (#[trigger] components@[x]).descriptor_index)->Ok_0;
                            &&& blk@[2 + 2 * x]@ == "    descriptor: "@ + desc
                            &&& exists|t2: Seq<char>| #[trigger] crate::classfile::converted(desc, t2)
                                && blk@[1 + 2 * x]@ == "  "@ + t2 + seq![' '] + utf8_content(cp.entries@, components@[x].name_index)->Ok_0 + seq![';']
                        } by {
                            if x < j {
                                assert(blk@[2 + 2 * x] == prev[2 + 2 * x]);
                                assert(blk@[1 + 2 * x] == prev[1 + 2 * x]);
                            } else {
                                assert(components@[x] == *c);
                                assert(blk@[1 + 2 * x]@ == lv);
                                assert(blk@[2 + 2 * x]@ == dv);
                                assert(crate::classfile::converted(descriptor@, t@));
                                assert(lv == "  "@ + t@ + seq![' '] + utf8_content(cp.entries@, components@[x].name_index)->Ok_0 + seq![';']);
                            }
                        }
                    }
                    j = j + 1;
                }
            },
            AttributeInfo::Signature { signature_index } => {
                let line = signature_line(cp, "", *signature_index, layout.comment_start)?;
                proof {
                    reveal_strlit("");
                    assert(""@ + "Signature: "@ =~= "Signature: "@);
                }
                blk.push(line);
            },
            _ => {},
        }
        let ghost before = out@;
        let ghost bl = blk@;
        out.append(&mut blk);
        proof {
            assert forall|k2: int| 0 <= k2 <= k implies attribute_shown(cp.entries@, layout.comment_start as int,
                #[trigger] attributes@[k2], out@) by {
                if k2 < k {
                    lemma_shown_kept(cp.entries@, layout.comment_start as int, attributes@[k2], before, out@);
                } else {
                    if bl.len() > 0 {
                        assert(out@[before.len() as int] == bl[0]);
                    }
                    if attributes@[k2] is Record {
                        let cs = attributes@[k2]->Record_components@;
                        assert forall|x: int| 0 <= x < cs.len() implies #[trigger] out@[before.len() + 1 + 2 * x] == bl[1 + 2 * x]
                            && out@[before.len() + 2 + 2 * x] == bl[2 + 2 * x] by {}
                        assert(record_at(cp.entries@, cs, out@, before.len() as int));
                    }
                    if attributes@[k2] is InnerClasses {
                        let cs = attributes@[k2]->InnerClasses_classes@;
                        assert forall|x: int| 0 <= x < cs.len() implies out@[before.len() + 1 + x]@
                            == inner_class_row(cp.entries@, layout.comment_start as int, #[trigger] cs[x]) by {
                            assert(out@[before.len() + 1 + x] == bl[1 + x]);
                        }
                        assert(inner_classes_at(cp.entries@, layout.comment_start as int, cs, out@, before.len() as int));
                    }
                }
            }
        }
        k = k + 1;
    }
    Ok(out)
}

} // verus!
