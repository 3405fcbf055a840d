use vstd::prelude::*;

use crate::text::{decimal, hex_fixed, lit, push_char, push_decimal, push_hex, push_str};

verus! {

/// Why a class file could not be decoded.
#[derive(Debug, Clone, PartialEq, Eq)]
pub enum ClassFileError {
    /// Fewer bytes remained than a read asked for.
    UnexpectedEof,
    /// The first four bytes are not `0xCAFEBABE`.
    BadMagic { actual: u32 },
    /// A constant-pool tag outside the accepted set.
    UnknownConstantPoolTag { tag: u8 },
    /// A method-handle reference kind outside `1..=9`.
    UnknownReferenceKind { kind: u8 },
    /// Access-flag bits outside the mask of their context.
    InvalidAccessFlags { flags: u16, mask: u16 },
    /// An opcode that the decoder does not know.
    UnknownOpcode { opcode: u8 },
    /// A branch or switch whose target lies outside the code block.
    BranchOutOfRange { position: u32 },
    /// A `tableswitch` with `high < low` or a `lookupswitch` with a negative count.
    BadSwitch { position: u32 },
    /// A verification-type tag outside `0..=8`.
    UnknownVerificationType { tag: u8 },
    /// A stack-map frame type in the reserved range `128..=246`.
    ReservedFrameType { frame_type: u8 },
    /// An attribute name that is unknown or not allowed in its context.
    UnknownAttribute { name: String },
    /// A descriptor that does not follow the grammar.
    InvalidDescriptor { descriptor: String },
    /// A constant-pool index that is zero, past the end, or names the slot after a wide entry.
    BadConstantIndex { index: u16 },
    /// A constant-pool entry of another variant than the one that was asked for.
    WrongEntryType { index: u16 },
    /// A `Utf8` entry whose bytes are not valid UTF-8.
    InvalidUtf8 { index: u16 },
}

impl ClassFileError {
    /// A short diagnostic that names the offending value.
    pub fn message(&self) -> (r: String)
        ensures
            self is BadMagic ==> r@ == "Wrong magic number: expected 0xcafebabe but was 0x"@
                + hex_fixed(self->actual as nat, 8) + seq!['.'],
            self matches ClassFileError::UnknownConstantPoolTag { tag } ==> r@ == "Unknown constant pool tag "@ + decimal(tag as nat) + "."@,
            self matches ClassFileError::UnknownReferenceKind { kind } ==> r@ == "Unknown reference kind "@ + decimal(kind as nat) + "."@,
            self matches ClassFileError::BranchOutOfRange { position } ==> r@ == "Branch target out of the code block at offset "@ + decimal(position as nat) + "."@,
            self matches ClassFileError::BadSwitch { position } ==> r@ == "Malformed switch at offset "@ + decimal(position as nat) + "."@,
            self matches ClassFileError::UnknownVerificationType { tag } ==> r@ == "Wrong verification type info tag "@ + decimal(tag as nat) + "."@,
            self matches ClassFileError::ReservedFrameType { frame_type } ==> r@ == "Reserved stack map frame type "@ + decimal(frame_type as nat) + "."@,
            self matches ClassFileError::BadConstantIndex { index } ==> r@ == "No constant pool entry at index #"@ + decimal(index as nat) + "."@,
            self matches ClassFileError::WrongEntryType { index } ==> r@ == "Constant pool entry of an unexpected type at index #"@ + decimal(index as nat) + "."@,
            self matches ClassFileError::InvalidUtf8 { index } ==> r@ == "Invalid UTF-8 in constant pool entry #"@ + decimal(index as nat) + "."@,
            self matches ClassFileError::UnknownOpcode { opcode } ==> r@ == "Unknown bytecode instruction 0x"@
                + hex_fixed(opcode as nat, 2) + "."@,
            self matches ClassFileError::InvalidAccessFlags { flags, mask } ==> r@ == "Access flags 0x"@
                + hex_fixed(flags as nat, 4) + " have bits outside the mask 0x"@ + hex_fixed(mask as nat, 4) + "."@,
            self matches ClassFileError::UnknownAttribute { name } ==> r@ == "The name '"@ + name@
                + "' is either not of an attribute or not allowed here."@,
            self matches ClassFileError::InvalidDescriptor { descriptor } ==> r@ == "Invalid descriptor: '"@
                + descriptor@ + "'."@,
            self is UnexpectedEof ==> r@ == "Unexpected end of input."@,
    {
        match self {
            ClassFileError::UnexpectedEof => lit("Unexpected end of input."),
            ClassFileError::BadMagic { actual } => {
                let mut s = lit("Wrong magic number: expected 0xcafebabe but was 0x");
                push_hex(&mut s, *actual as u64, 8);
                push_char(&mut s, '.');
                assert(s@ =~= "Wrong magic number: expected 0xcafebabe but was 0x"@ + hex_fixed(*actual as nat, 8) + seq!['.']);
                s
            },
            ClassFileError::UnknownConstantPoolTag { tag } => number_message("Unknown constant pool tag ", *tag as u64),
            ClassFileError::UnknownReferenceKind { kind } => number_message("Unknown reference kind ", *kind as u64),
            ClassFileError::InvalidAccessFlags { flags, mask } => {
                let mut s = lit("Access flags 0x");
                push_hex(&mut s, *flags as u64, 4);
                push_str(&mut s, " have bits outside the mask 0x");
                push_hex(&mut s, *mask as u64, 4);
                push_str(&mut s, ".");
                s
            },
            ClassFileError::UnknownOpcode { opcode } => {
                let mut s = lit("Unknown bytecode instruction 0x");
                push_hex(&mut s, *opcode as u64, 2);
                push_str(&mut s, ".");
                s
            },
            ClassFileError::BranchOutOfRange { position } => number_message("Branch target out of the code block at offset ", *position as u64),
            ClassFileError::BadSwitch { position } => number_message("Malformed switch at offset ", *position as u64),
            ClassFileError::UnknownVerificationType { tag } => number_message("Wrong verification type info tag ", *tag as u64),
            ClassFileError::ReservedFrameType { frame_type } => number_message("Reserved stack map frame type ", *frame_type as u64),
            ClassFileError::UnknownAttribute { name } => {
                let mut s = lit("The name '");
                push_str(&mut s, name.as_str());
                push_str(&mut s, "' is either not of an attribute or not allowed here.");
                s
            },
            ClassFileError::InvalidDescriptor { descriptor } => {
                let mut s = lit("Invalid descriptor: '");
                push_str(&mut s, descriptor.as_str());
                push_str(&mut s, "'.");
                s
            },
            ClassFileError::BadConstantIndex { index } => number_message("No constant pool entry at index #", *index as u64),
            ClassFileError::WrongEntryType { index } => number_message("Constant pool entry of an unexpected type at index #", *index as u64),
            ClassFileError::InvalidUtf8 { index } => number_message("Invalid UTF-8 in constant pool entry #", *index as u64),
        }
    }
}

fn number_message(text: &str, n: u64) -> (r: String)
    ensures
        r@ == text@ + decimal(n as nat) + "."@,
{
    let mut s = lit(text);
    push_decimal(&mut s, n);
    push_str(&mut s, ".");
    s
}

} // verus!
