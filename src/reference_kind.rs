use vstd::prelude::*;

use crate::text::lit;

verus! {

/// The kind of a `MethodHandle` constant.
#[derive(Debug, Clone, Copy, PartialEq, Eq, Structural)]
pub enum ReferenceKind {
    GetField,
    GetStatic,
    PutField,
    PutStatic,
    InvokeVirtual,
    InvokeStatic,
    InvokeSpecial,
    NewInvokeSpecial,
    InvokeInterface,
}

/// The number that encodes each kind in a class file.
pub open spec fn kind_code(k: ReferenceKind) -> u8 {
    match k {
        ReferenceKind::GetField => 1,
        ReferenceKind::GetStatic => 2,
        ReferenceKind::PutField => 3,
        ReferenceKind::PutStatic => 4,
        ReferenceKind::InvokeVirtual => 5,
        ReferenceKind::InvokeStatic => 6,
        ReferenceKind::InvokeSpecial => 7,
        ReferenceKind::NewInvokeSpecial => 8,
        ReferenceKind::InvokeInterface => 9,
    }
}

pub open spec fn spec_java_repr(k: ReferenceKind) -> Seq<char> {
    match k {
        ReferenceKind::GetField => "REF_getField"@,
        ReferenceKind::GetStatic => "REF_getStatic"@,
        ReferenceKind::PutField => "REF_putField"@,
        ReferenceKind::PutStatic => "REF_putStatic"@,
        ReferenceKind::InvokeVirtual => "REF_invokeVirtual"@,
        ReferenceKind::InvokeStatic => "REF_invokeStatic"@,
        ReferenceKind::InvokeSpecial => "REF_invokeSpecial"@,
        ReferenceKind::NewInvokeSpecial => "REF_newInvokeSpecial"@,
        ReferenceKind::InvokeInterface => "REF_invokeInterface"@,
    }
}

impl ReferenceKind {
    /// Decodes a reference-kind byte; `None` outside `1..=9`.
    pub fn from_code(v: u8) -> (r: Option<ReferenceKind>)
        ensures
            r is Some <==> 1 <= v <= 9,
            r matches Some(k) ==> kind_code(k) == v,
    {
        match v {
            1 => Some(ReferenceKind::GetField),
            2 => Some(ReferenceKind::GetStatic),
            3 => Some(ReferenceKind::PutField),
            4 => Some(ReferenceKind::PutStatic),
            5 => Some(ReferenceKind::InvokeVirtual),
            6 => Some(ReferenceKind::InvokeStatic),
            7 => Some(ReferenceKind::InvokeSpecial),
            8 => Some(ReferenceKind::NewInvokeSpecial),
            9 => Some(ReferenceKind::InvokeInterface),
            _ => None,
        }
    }

    pub fn code(&self) -> (r: u8)
        ensures
            r == kind_code(*self),
    {
        match self {
            ReferenceKind::GetField => 1,
            ReferenceKind::GetStatic => 2,
            ReferenceKind::PutField => 3,
            ReferenceKind::PutStatic => 4,
            ReferenceKind::InvokeVirtual => 5,
            ReferenceKind::InvokeStatic => 6,
            ReferenceKind::InvokeSpecial => 7,
            ReferenceKind::NewInvokeSpecial => 8,
            ReferenceKind::InvokeInterface => 9,
        }
    }
}

/// The `REF_` token that javap shows for a kind.
pub fn java_repr(k: ReferenceKind) -> (r: String)
    ensures
        r@ == spec_java_repr(k),
{
    match k {
        ReferenceKind::GetField => lit("REF_getField"),
        ReferenceKind::GetStatic => lit("REF_getStatic"),
        ReferenceKind::PutField => lit("REF_putField"),
        ReferenceKind::PutStatic => lit("REF_putStatic"),
        ReferenceKind::InvokeVirtual => lit("REF_invokeVirtual"),
        ReferenceKind::InvokeStatic => lit("REF_invokeStatic"),
        ReferenceKind::InvokeSpecial => lit("REF_invokeSpecial"),
        ReferenceKind::NewInvokeSpecial => lit("REF_newInvokeSpecial"),
        ReferenceKind::InvokeInterface => lit("REF_invokeInterface"),
    }
}

} // verus!
