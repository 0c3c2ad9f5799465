//! How configuration values are laid out for a plugin module: the kind tag
//! of each value and the bytes of the strings handed to the module.
use vstd::prelude::*;

use crate::value::{Value, ValueView};
#[allow(unused_imports)]
use vstd::string::StringSliceAdditionalSpecFns;

verus! {

/// The kind of a value as the module sees it.
#[derive(Debug, Clone, Copy, PartialEq, Eq, Structural)]
pub enum FfiValueType {
    Integer,
    UnsignedInteger,
    Float,
    Boolean,
    Enum,
    LocalizationKey,
    String,
    Array,
}

pub open spec fn spec_kind_of(v: ValueView) -> FfiValueType {
    match v {
        ValueView::Integer(_) => FfiValueType::Integer,
        ValueView::UnsignedInteger(_) => FfiValueType::UnsignedInteger,
        ValueView::Float(_) => FfiValueType::Float,
        ValueView::Boolean(_) => FfiValueType::Boolean,
        ValueView::Enumeration(_) => FfiValueType::Enum,
        ValueView::LocalizationKey(_) => FfiValueType::LocalizationKey,
        ValueView::String(_) => FfiValueType::String,
        ValueView::Array(_) => FfiValueType::Array,
    }
}

pub open spec fn spec_tag(k: FfiValueType) -> u32 {
    match k {
        FfiValueType::Integer => 0,
        FfiValueType::UnsignedInteger => 1,
        FfiValueType::Float => 2,
        FfiValueType::Boolean => 3,
        FfiValueType::Enum => 4,
        FfiValueType::LocalizationKey => 5,
        FfiValueType::String => 6,
        FfiValueType::Array => 7,
    }
}

impl FfiValueType {
    /// The kind of `value`.
    pub fn of(value: &Value) -> (r: FfiValueType)
        ensures
            r == spec_kind_of(value@),
    {
        match value {
            Value::Integer(_) => FfiValueType::Integer,
            Value::UnsignedInteger(_) => FfiValueType::UnsignedInteger,
            Value::Float(_) => FfiValueType::Float,
            Value::Boolean(_) => FfiValueType::Boolean,
            Value::Enumeration(_) => FfiValueType::Enum,
            Value::LocalizationKey(_) => FfiValueType::LocalizationKey,
            Value::String(_) => FfiValueType::String,
            Value::Array(_) => FfiValueType::Array,
        }
    }

    /// The number the module reads for the kind: its position in the
    /// declaration, from zero.
    pub fn tag(self) -> (r: u32)
        ensures
            r == spec_tag(self),
    {
        match self {
            FfiValueType::Integer => 0,
            FfiValueType::UnsignedInteger => 1,
            FfiValueType::Float => 2,
            FfiValueType::Boolean => 3,
            FfiValueType::Enum => 4,
            FfiValueType::LocalizationKey => 5,
            FfiValueType::String => 6,
            FfiValueType::Array => 7,
        }
    }
}

/// The word a boolean is passed as: one for true, zero for false.
pub fn boolean_word(b: bool) -> (r: i32)
    ensures
        r == (if b { 1i32 } else { 0i32 }),
{
    if b {
        1
    } else {
        0
    }
}

/// The bytes of a string as the module receives it: its UTF-8 encoding
/// followed by a zero byte.
pub fn nul_terminated(s: &str) -> (r: Vec<u8>)
    ensures
        r@ == s.spec_bytes().push(0u8),
{
    let bytes = s.as_bytes();
    let mut out: Vec<u8> = Vec::new();
    let mut i: usize = 0;
    while i < bytes.len()
        invariant
            0 <= i <= bytes@.len(),
            bytes@ == s.spec_bytes(),
            out@ == bytes@.take(i as int),
        decreases bytes@.len() - i,
    {
        out.push(bytes[i]);
        assert(bytes@.take(i + 1) =~= bytes@.take(i as int).push(bytes@[i as int]));
        i = i + 1;
    }
    out.push(0u8);
    assert(bytes@.take(bytes@.len() as int) =~= bytes@);
    out
}

} // verus!
