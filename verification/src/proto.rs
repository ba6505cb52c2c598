//! A decoded descriptor tree, as handed over by a descriptor decoder.
//!
//! These types mirror the well-known protocol-buffer descriptor shape: a set
//! of files, each with a package and top-level types; messages with fields,
//! nested messages and nested enums.  They hold plain values only, so the
//! registry's import walk over them is verified; decoding the binary wire
//! form into this shape happens outside the library.

use vstd::prelude::*;

verus! {

/// The cardinality label carried by a field descriptor.
#[derive(Clone, Copy, Debug, PartialEq, Eq, Structural)]
pub enum LabelProto {
    /// `LABEL_OPTIONAL`.
    Optional,
    /// `LABEL_REQUIRED`.
    Required,
    /// `LABEL_REPEATED`.
    Repeated,
}

/// The type tag carried by a field descriptor.
#[derive(Clone, Copy, Debug, PartialEq, Eq, Structural)]
pub enum TypeProto {
    /// `TYPE_DOUBLE`.
    Double,
    /// `TYPE_FLOAT`.
    Float,
    /// `TYPE_INT64`.
    Int64,
    /// `TYPE_UINT64`.
    UInt64,
    /// `TYPE_INT32`.
    Int32,
    /// `TYPE_FIXED64`.
    Fixed64,
    /// `TYPE_FIXED32`.
    Fixed32,
    /// `TYPE_BOOL`.
    Bool,
    /// `TYPE_STRING`.
    String,
    /// `TYPE_GROUP`.
    Group,
    /// `TYPE_MESSAGE`.
    Message,
    /// `TYPE_BYTES`.
    Bytes,
    /// `TYPE_UINT32`.
    UInt32,
    /// `TYPE_ENUM`.
    Enum,
    /// `TYPE_SFIXED32`.
    SFixed32,
    /// `TYPE_SFIXED64`.
    SFixed64,
    /// `TYPE_SINT32`.
    SInt32,
    /// `TYPE_SINT64`.
    SInt64,
}

/// A decoded enum value descriptor: a local name and a number.
#[derive(Debug)]
pub struct EnumValueProto {
    /// The value's local name.
    pub name: String,
    /// The value's number.
    pub number: i32,
}

/// A decoded enum descriptor: a local name and its values.
#[derive(Debug)]
pub struct EnumProto {
    /// The enum's local name.
    pub name: String,
    /// The enum's values, in declaration order.
    pub value: Vec<EnumValueProto>,
}

/// A decoded field descriptor.
#[derive(Debug)]
pub struct FieldProto {
    /// The field's local name.
    pub name: String,
    /// The field's number.
    pub number: i32,
    /// The field's cardinality label.
    pub label: LabelProto,
    /// The field's type tag.
    pub field_type: TypeProto,
    /// For message- and enum-typed fields, the fully qualified name of the
    /// referenced type, with a leading dot.
    pub type_ref: String,
    /// The field's textual default value, if the schema declares one.
    pub default_value: Option<String>,
    /// Whether the field is marked `optional` under proto3 semantics.
    pub proto3_optional: bool,
}

/// A decoded message descriptor: a local name, fields, and nested types.
#[derive(Debug)]
pub struct MessageProto {
    /// The message's local name.
    pub name: String,
    /// The message's fields, in declaration order.
    pub field: Vec<FieldProto>,
    /// Messages declared inside this message.
    pub nested_type: Vec<MessageProto>,
    /// Enums declared inside this message.
    pub enum_type: Vec<EnumProto>,
}

/// A decoded file descriptor: an optional dotted package name and the
/// file's top-level types.
#[derive(Debug)]
pub struct FileProto {
    /// The file's package name, without a leading dot.
    pub package: Option<String>,
    /// The file's top-level messages.
    pub message_type: Vec<MessageProto>,
    /// The file's top-level enums.
    pub enum_type: Vec<EnumProto>,
}

/// A decoded file descriptor set: a list of files.
#[derive(Debug)]
pub struct FileSetProto {
    /// The files of the set, in order.
    pub file: Vec<FileProto>,
}

} // verus!
