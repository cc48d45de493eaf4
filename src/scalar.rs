//! The scalar type table: wire kinds to semantic value types.
use vstd::prelude::*;
use crate::descriptor::WireKind;

verus! {

/// A semantic scalar type. Integer encodings of one width and signedness
/// share one type.
#[derive(Clone, Copy, Debug, PartialEq, Eq, Structural)]
pub enum Scalar {
    I32,
    I64,
    U32,
    U64,
    F32,
    F64,
    Bool,
    Str,
    Bytes,
}

/// The kinds that carry a scalar value (all but group, message and enum).
pub open spec fn is_scalar_kind(k: WireKind) -> bool {
    !matches!(k, WireKind::Group | WireKind::Message | WireKind::Enum)
}

pub open spec fn scalar_of(k: WireKind) -> Option<Scalar> {
    match k {
        WireKind::Int32 | WireKind::SInt32 | WireKind::SFixed32 => Some(Scalar::I32),
        WireKind::Int64 | WireKind::SInt64 | WireKind::SFixed64 => Some(Scalar::I64),
        WireKind::UInt32 | WireKind::Fixed32 => Some(Scalar::U32),
        WireKind::UInt64 | WireKind::Fixed64 => Some(Scalar::U64),
        WireKind::Float => Some(Scalar::F32),
        WireKind::Double => Some(Scalar::F64),
        WireKind::Bool => Some(Scalar::Bool),
        WireKind::String => Some(Scalar::Str),
        WireKind::Bytes => Some(Scalar::Bytes),
        _ => None,
    }
}

/// The semantic type of a scalar kind; `None` for group, message and enum.
pub fn scalar_type(k: WireKind) -> (r: Option<Scalar>)
    ensures
        r == scalar_of(k),
        r.is_some() <==> is_scalar_kind(k),
{
    match k {
        WireKind::Int32 | WireKind::SInt32 | WireKind::SFixed32 => Some(Scalar::I32),
        WireKind::Int64 | WireKind::SInt64 | WireKind::SFixed64 => Some(Scalar::I64),
        WireKind::UInt32 | WireKind::Fixed32 => Some(Scalar::U32),
        WireKind::UInt64 | WireKind::Fixed64 => Some(Scalar::U64),
        WireKind::Float => Some(Scalar::F32),
        WireKind::Double => Some(Scalar::F64),
        WireKind::Bool => Some(Scalar::Bool),
        WireKind::String => Some(Scalar::Str),
        WireKind::Bytes => Some(Scalar::Bytes),
        WireKind::Group | WireKind::Message | WireKind::Enum => None,
    }
}

/// The Python annotation of a scalar type.
pub open spec fn py_scalar(s: Scalar) -> Seq<char> {
    match s {
        Scalar::I32 | Scalar::I64 | Scalar::U32 | Scalar::U64 => "int"@,
        Scalar::F32 | Scalar::F64 => "float"@,
        Scalar::Bool => "bool"@,
        Scalar::Str => "str"@,
        Scalar::Bytes => "bytes"@,
    }
}

pub fn py_scalar_name(s: Scalar) -> (r: &'static str)
    ensures
        r@ == py_scalar(s),
{
    match s {
        Scalar::I32 | Scalar::I64 | Scalar::U32 | Scalar::U64 => "int",
        Scalar::F32 | Scalar::F64 => "float",
        Scalar::Bool => "bool",
        Scalar::Str => "str",
        Scalar::Bytes => "bytes",
    }
}

} // verus!
