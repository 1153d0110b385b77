//! Element type tags and the storage layout each one selects.
use vstd::prelude::*;

verus! {

/// Tag of an unsigned 8-bit field.
pub const GD_UINT8: u32 = 0x01;
/// Tag of a signed 8-bit field.
pub const GD_INT8: u32 = 0x41;
/// Tag of an unsigned 16-bit field.
pub const GD_UINT16: u32 = 0x02;
/// Tag of a signed 16-bit field.
pub const GD_INT16: u32 = 0x42;
/// Tag of an unsigned 32-bit field.
pub const GD_UINT32: u32 = 0x04;
/// Tag of a signed 32-bit field.
pub const GD_INT32: u32 = 0x44;
/// Tag of an unsigned 64-bit field.
pub const GD_UINT64: u32 = 0x08;
/// Tag of a signed 64-bit field.
pub const GD_INT64: u32 = 0x48;
/// Tag of a 32-bit IEEE 754 field.
pub const GD_FLOAT32: u32 = 0x84;
/// Tag of a 64-bit IEEE 754 field.
pub const GD_FLOAT64: u32 = 0x88;
/// Tag of a text field.
pub const GD_STRING: u32 = 0x401;

/// The storage encoding of a field's samples.
#[derive(Clone, Copy, Debug, PartialEq, Eq, Structural)]
pub enum ElementType {
    Uint8,
    Int8,
    Uint16,
    Int16,
    Uint32,
    Int32,
    Uint64,
    Int64,
    Float32,
    Float64,
    Text,
}

/// The element type a tag stands for, if it is one of the recognized tags.
pub open spec fn spec_from_tag(tag: u32) -> Option<ElementType> {
    if tag == GD_UINT8 {
        Some(ElementType::Uint8)
    } else if tag == GD_INT8 {
        Some(ElementType::Int8)
    } else if tag == GD_UINT16 {
        Some(ElementType::Uint16)
    } else if tag == GD_INT16 {
        Some(ElementType::Int16)
    } else if tag == GD_UINT32 {
        Some(ElementType::Uint32)
    } else if tag == GD_INT32 {
        Some(ElementType::Int32)
    } else if tag == GD_UINT64 {
        Some(ElementType::Uint64)
    } else if tag == GD_INT64 {
        Some(ElementType::Int64)
    } else if tag == GD_FLOAT32 {
        Some(ElementType::Float32)
    } else if tag == GD_FLOAT64 {
        Some(ElementType::Float64)
    } else if tag == GD_STRING {
        Some(ElementType::Text)
    } else {
        None
    }
}

/// Bytes that one stored sample of this type occupies; 0 for text, whose
/// cells are handed over one by one rather than packed in a byte buffer.
pub open spec fn spec_width(e: ElementType) -> nat {
    match e {
        ElementType::Uint8 | ElementType::Int8 => 1,
        ElementType::Uint16 | ElementType::Int16 => 2,
        ElementType::Uint32 | ElementType::Int32 | ElementType::Float32 => 4,
        ElementType::Uint64 | ElementType::Int64 | ElementType::Float64 => 8,
        ElementType::Text => 0,
    }
}

/// Whether the type is a two's complement signed integer.
pub open spec fn spec_is_signed(e: ElementType) -> bool {
    match e {
        ElementType::Int8 | ElementType::Int16 | ElementType::Int32 | ElementType::Int64 => true,
        _ => false,
    }
}

impl ElementType {
    /// Bytes that one stored sample occupies; 0 for text.
    pub fn width(&self) -> (r: usize)
        ensures
            r == spec_width(*self),
    {
        match self {
            ElementType::Uint8 | ElementType::Int8 => 1,
            ElementType::Uint16 | ElementType::Int16 => 2,
            ElementType::Uint32 | ElementType::Int32 | ElementType::Float32 => 4,
            ElementType::Uint64 | ElementType::Int64 | ElementType::Float64 => 8,
            ElementType::Text => 0,
        }
    }

    /// Whether the type is a two's complement signed integer.
    pub fn is_signed(&self) -> (r: bool)
        ensures
            r == spec_is_signed(*self),
    {
        match self {
            ElementType::Int8 | ElementType::Int16 | ElementType::Int32 | ElementType::Int64 => true,
            _ => false,
        }
    }

    /// Selects the element type for a tag; `None` for an unrecognized tag.
    pub fn from_tag(tag: u32) -> (r: Option<ElementType>)
        ensures
            r == spec_from_tag(tag),
    {
        if tag == GD_UINT8 {
            Some(ElementType::Uint8)
        } else if tag == GD_INT8 {
            Some(ElementType::Int8)
        } else if tag == GD_UINT16 {
            Some(ElementType::Uint16)
        } else if tag == GD_INT16 {
            Some(ElementType::Int16)
        } else if tag == GD_UINT32 {
            Some(ElementType::Uint32)
        } else if tag == GD_INT32 {
            Some(ElementType::Int32)
        } else if tag == GD_UINT64 {
            Some(ElementType::Uint64)
        } else if tag == GD_INT64 {
            Some(ElementType::Int64)
        } else if tag == GD_FLOAT32 {
            Some(ElementType::Float32)
        } else if tag == GD_FLOAT64 {
            Some(ElementType::Float64)
        } else if tag == GD_STRING {
            Some(ElementType::Text)
        } else {
            None
        }
    }
}

} // verus!
