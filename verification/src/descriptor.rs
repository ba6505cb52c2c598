//! Dynamic descriptors for protocol-buffer schemata.
//!
//! The descriptors are optimized for read performance: a parser walking
//! actual protocol-buffer data looks fields up by name or by number through
//! the indices kept here.  A registry is built either from a decoded
//! descriptor tree (see [`crate::proto`]) or by adding custom-built
//! descriptors one by one; a later resolution pass rewrites type references
//! held as names into direct handles.

use vstd::prelude::*;
use crate::error::Error;
use crate::indexes::{
    NameIndex, NumberIndex, name_index_entries, number_index_entries, name_index_new,
    name_index_insert, name_index_get, number_index_new, number_index_insert, number_index_get,
};
use crate::numeric::{
    spec_parse_i32, spec_parse_i64, spec_parse_u32, spec_parse_u64, parse_i32_str, parse_i64_str,
    parse_u32_str, parse_u64_str,
};
use crate::proto::{EnumProto, EnumValueProto, FieldProto, FileProto, FileSetProto, LabelProto,
    MessageProto, TypeProto};
use crate::value::{Value, ValueView, f64_bits_of, parse_f64_bits, narrow_f64_bits,
    spec_narrow_f64_bits};

verus! {

/// An ID used for internal tracking of resolved message descriptors.
///
/// It is not possible to construct a value of this type from outside this
/// module.
#[derive(Clone, Copy, Debug, Eq, PartialEq, Structural)]
pub struct MessageId(usize);

impl MessageId {
    /// The index into the registry's message sequence that this handle
    /// denotes.
    pub closed spec fn spec_index(&self) -> int {
        self.0 as int
    }
}

/// An ID used for internal tracking of resolved enum descriptors.
///
/// It is not possible to construct a value of this type from outside this
/// module.
#[derive(Clone, Copy, Debug, Eq, PartialEq, Structural)]
pub struct EnumId(usize);

impl EnumId {
    /// The index into the registry's enum sequence that this handle denotes.
    pub closed spec fn spec_index(&self) -> int {
        self.0 as int
    }
}

/// A label that a field can be given to indicate its cardinality.
#[derive(Clone, Copy, Debug, Eq, PartialEq, Structural)]
pub enum FieldLabel {
    /// There can be zero or one value.
    Optional,
    /// There must be exactly one value.
    Required,
    /// There can be any number of values.
    Repeated,
}

/// The internally tracked type of a field.
///
/// The type owns all of its data, and can refer to an internally tracked ID
/// for resolved type references.  It is by design not possible to construct
/// those IDs from outside this module.
#[derive(Debug, Eq, PartialEq)]
pub enum InternalFieldType {
    /// A message that is yet to be resolved.
    UnresolvedMessage(String),
    /// An enum that is yet to be resolved.
    UnresolvedEnum(String),
    /// The `double` type.
    Double,
    /// The `float` type.
    Float,
    /// The `int64` type.
    Int64,
    /// The `uint64` type.
    UInt64,
    /// The `int32` type.
    Int32,
    /// The `fixed64` type.
    Fixed64,
    /// The `fixed32` type.
    Fixed32,
    /// The `bool` type.
    Bool,
    /// The `string` type.
    String,
    /// The `group` type.
    Group,
    /// A resolved message type.
    Message(MessageId),
    /// The `bytes` type.
    Bytes,
    /// The `uint32` type.
    UInt32,
    /// A resolved enum type.
    Enum(EnumId),
    /// The `sfixed32` type.
    SFixed32,
    /// The `sfixed64` type.
    SFixed64,
    /// The `sint32` type.
    SInt32,
    /// The `sint64` type.
    SInt64,
}

/// The mathematical content of an [`InternalFieldType`]: names become
/// character sequences and handles become plain indices.
#[verifier::ext_equal]
pub enum TypeView {
    /// A message reference kept as a fully qualified name.
    UnresolvedMessage(Seq<char>),
    /// An enum reference kept as a fully qualified name.
    UnresolvedEnum(Seq<char>),
    /// The `double` type.
    Double,
    /// The `float` type.
    Float,
    /// The `int64` type.
    Int64,
    /// The `uint64` type.
    UInt64,
    /// The `int32` type.
    Int32,
    /// The `fixed64` type.
    Fixed64,
    /// The `fixed32` type.
    Fixed32,
    /// The `bool` type.
    Bool,
    /// The `string` type.
    String,
    /// The `group` type.
    Group,
    /// A message reference resolved to an index into the registry's message
    /// sequence.
    Message(int),
    /// The `bytes` type.
    Bytes,
    /// The `uint32` type.
    UInt32,
    /// An enum reference resolved to an index into the registry's enum
    /// sequence.
    Enum(int),
    /// The `sfixed32` type.
    SFixed32,
    /// The `sfixed64` type.
    SFixed64,
    /// The `sint32` type.
    SInt32,
    /// The `sint64` type.
    SInt64,
}

impl View for InternalFieldType {
    type V = TypeView;

    open spec fn view(&self) -> TypeView {
        match self {
            InternalFieldType::UnresolvedMessage(n) => TypeView::UnresolvedMessage(n@),
            InternalFieldType::UnresolvedEnum(n) => TypeView::UnresolvedEnum(n@),
            InternalFieldType::Double => TypeView::Double,
            InternalFieldType::Float => TypeView::Float,
            InternalFieldType::Int64 => TypeView::Int64,
            InternalFieldType::UInt64 => TypeView::UInt64,
            InternalFieldType::Int32 => TypeView::Int32,
            InternalFieldType::Fixed64 => TypeView::Fixed64,
            InternalFieldType::Fixed32 => TypeView::Fixed32,
            InternalFieldType::Bool => TypeView::Bool,
            InternalFieldType::String => TypeView::String,
            InternalFieldType::Group => TypeView::Group,
            InternalFieldType::Message(m) => TypeView::Message(m.spec_index()),
            InternalFieldType::Bytes => TypeView::Bytes,
            InternalFieldType::UInt32 => TypeView::UInt32,
            InternalFieldType::Enum(e) => TypeView::Enum(e.spec_index()),
            InternalFieldType::SFixed32 => TypeView::SFixed32,
            InternalFieldType::SFixed64 => TypeView::SFixed64,
            InternalFieldType::SInt32 => TypeView::SInt32,
            InternalFieldType::SInt64 => TypeView::SInt64,
        }
    }
}

/// The mathematical content of a [`FieldDescriptor`].
#[verifier::ext_equal]
pub struct FieldView {
    /// The field's unqualified name.
    pub name: Seq<char>,
    /// The field's number.
    pub number: i32,
    /// The field's cardinality label.
    pub label: FieldLabel,
    /// The field's internally tracked type.
    pub ftype: TypeView,
    /// The field's parsed default value, if any.
    pub default: Option<ValueView>,
    /// Whether the field records explicit presence.
    pub optional: bool,
}

/// A descriptor for a single protocol buffer message field.
#[derive(Debug)]
pub struct FieldDescriptor {
    name: String,
    number: i32,
    field_label: FieldLabel,
    field_type: InternalFieldType,
    default_value: Option<Value>,
    optional: bool,
}

impl View for FieldDescriptor {
    type V = FieldView;

    closed spec fn view(&self) -> FieldView {
        FieldView {
            name: self.name@,
            number: self.number,
            label: self.field_label,
            ftype: self.field_type@,
            default: match self.default_value {
                Some(v) => Some(v@),
                None => None,
            },
            optional: self.optional,
        }
    }
}

/// The mathematical content of an [`EnumValueDescriptor`].
#[verifier::ext_equal]
pub struct EnumValueView {
    /// The value's name.
    pub name: Seq<char>,
    /// The value's number.
    pub number: i32,
}

/// A descriptor for a single protocol buffer enum value.
#[derive(Debug)]
pub struct EnumValueDescriptor {
    name: String,
    number: i32,
}

impl View for EnumValueDescriptor {
    type V = EnumValueView;

    closed spec fn view(&self) -> EnumValueView {
        EnumValueView { name: self.name@, number: self.number }
    }
}

/// The mathematical content of an [`EnumDescriptor`].
#[verifier::ext_equal]
pub struct EnumView {
    /// The enum's fully qualified name.
    pub name: Seq<char>,
    /// The enum's values, in insertion order.
    pub values: Seq<EnumValueView>,
    /// The name index over the values.
    pub by_name: Map<Seq<char>, usize>,
    /// The number index over the values.
    pub by_number: Map<i32, usize>,
}

/// A descriptor for a single protocol buffer enum type.
#[derive(Debug)]
pub struct EnumDescriptor {
    name: String,
    values: Vec<EnumValueDescriptor>,
    values_by_name: NameIndex,
    values_by_number: NumberIndex,
}

impl View for EnumDescriptor {
    type V = EnumView;

    closed spec fn view(&self) -> EnumView {
        EnumView {
            name: self.name@,
            values: self.values@.map_values(|v: EnumValueDescriptor| v@),
            by_name: name_index_entries(self.values_by_name),
            by_number: number_index_entries(self.values_by_number),
        }
    }
}

/// The mathematical content of a [`MessageDescriptor`].
#[verifier::ext_equal]
pub struct MessageView {
    /// The message's fully qualified name.
    pub name: Seq<char>,
    /// The message's fields, in insertion order.
    pub fields: Seq<FieldView>,
    /// The name index over the fields.
    pub by_name: Map<Seq<char>, usize>,
    /// The number index over the fields.
    pub by_number: Map<i32, usize>,
}

/// A descriptor for a single protocol buffer message type.
#[derive(Debug)]
pub struct MessageDescriptor {
    name: String,
    fields: Vec<FieldDescriptor>,
    fields_by_name: NameIndex,
    fields_by_number: NumberIndex,
}

impl View for MessageDescriptor {
    type V = MessageView;

    closed spec fn view(&self) -> MessageView {
        MessageView {
            name: self.name@,
            fields: self.fields@.map_values(|f: FieldDescriptor| f@),
            by_name: name_index_entries(self.fields_by_name),
            by_number: number_index_entries(self.fields_by_number),
        }
    }
}

/// The mathematical content of a [`Descriptors`] registry.
#[verifier::ext_equal]
pub struct RegistryView {
    /// The registered messages, in insertion order.
    pub messages: Seq<MessageView>,
    /// The registered enums, in insertion order.
    pub enums: Seq<EnumView>,
    /// The fully-qualified-name index over the messages.
    pub msg_index: Map<Seq<char>, usize>,
    /// The fully-qualified-name index over the enums.
    pub enum_index: Map<Seq<char>, usize>,
}

/// A registry for any number of protocol buffer descriptors.
#[derive(Debug)]
pub struct Descriptors {
    messages: Vec<MessageDescriptor>,
    enums: Vec<EnumDescriptor>,
    messages_by_name: NameIndex,
    enums_by_name: NameIndex,
}

impl View for Descriptors {
    type V = RegistryView;

    closed spec fn view(&self) -> RegistryView {
        RegistryView {
            messages: self.messages@.map_values(|m: MessageDescriptor| m@),
            enums: self.enums@.map_values(|e: EnumDescriptor| e@),
            msg_index: name_index_entries(self.messages_by_name),
            enum_index: name_index_entries(self.enums_by_name),
        }
    }
}

/// The externally visible type of a field.
///
/// This type representation borrows references to any referenced
/// descriptors.
#[derive(Debug)]
pub enum FieldType<'a> {
    /// A message that is yet to be resolved.
    UnresolvedMessage(&'a str),
    /// An enum that is yet to be resolved.
    UnresolvedEnum(&'a str),
    /// The `double` type.
    Double,
    /// The `float` type.
    Float,
    /// The `int64` type.
    Int64,
    /// The `uint64` type.
    UInt64,
    /// The `int32` type.
    Int32,
    /// The `fixed64` type.
    Fixed64,
    /// The `fixed32` type.
    Fixed32,
    /// The `bool` type.
    Bool,
    /// The `string` type.
    String,
    /// The `group` type.
    Group,
    /// A resolved message type.
    Message(&'a MessageDescriptor),
    /// The `bytes` type.
    Bytes,
    /// The `uint32` type.
    UInt32,
    /// A resolved enum type.
    Enum(&'a EnumDescriptor),
    /// The `sfixed32` type.
    SFixed32,
    /// The `sfixed64` type.
    SFixed64,
    /// The `sint32` type.
    SInt32,
    /// The `sint64` type.
    SInt64,
}

/// The mathematical content of a [`FieldType`]: referenced descriptors
/// appear by their own content.
#[verifier::ext_equal]
pub enum FieldTypeView {
    /// A message reference whose target is not in the registry.
    UnresolvedMessage(Seq<char>),
    /// An enum reference whose target is not in the registry.
    UnresolvedEnum(Seq<char>),
    /// The `double` type.
    Double,
    /// The `float` type.
    Float,
    /// The `int64` type.
    Int64,
    /// The `uint64` type.
    UInt64,
    /// The `int32` type.
    Int32,
    /// The `fixed64` type.
    Fixed64,
    /// The `fixed32` type.
    Fixed32,
    /// The `bool` type.
    Bool,
    /// The `string` type.
    String,
    /// The `group` type.
    Group,
    /// A resolved message type.
    Message(MessageView),
    /// The `bytes` type.
    Bytes,
    /// The `uint32` type.
    UInt32,
    /// A resolved enum type.
    Enum(EnumView),
    /// The `sfixed32` type.
    SFixed32,
    /// The `sfixed64` type.
    SFixed64,
    /// The `sint32` type.
    SInt32,
    /// The `sint64` type.
    SInt64,
}

impl<'a> View for FieldType<'a> {
    type V = FieldTypeView;

    open spec fn view(&self) -> FieldTypeView {
        match self {
            FieldType::UnresolvedMessage(n) => FieldTypeView::UnresolvedMessage(n@),
            FieldType::UnresolvedEnum(n) => FieldTypeView::UnresolvedEnum(n@),
            FieldType::Double => FieldTypeView::Double,
            FieldType::Float => FieldTypeView::Float,
            FieldType::Int64 => FieldTypeView::Int64,
            FieldType::UInt64 => FieldTypeView::UInt64,
            FieldType::Int32 => FieldTypeView::Int32,
            FieldType::Fixed64 => FieldTypeView::Fixed64,
            FieldType::Fixed32 => FieldTypeView::Fixed32,
            FieldType::Bool => FieldTypeView::Bool,
            FieldType::String => FieldTypeView::String,
            FieldType::Group => FieldTypeView::Group,
            FieldType::Message(m) => FieldTypeView::Message((*m)@),
            FieldType::Bytes => FieldTypeView::Bytes,
            FieldType::UInt32 => FieldTypeView::UInt32,
            FieldType::Enum(e) => FieldTypeView::Enum((*e)@),
            FieldType::SFixed32 => FieldTypeView::SFixed32,
            FieldType::SFixed64 => FieldTypeView::SFixed64,
            FieldType::SInt32 => FieldTypeView::SInt32,
            FieldType::SInt64 => FieldTypeView::SInt64,
        }
    }
}

/// The label denoted by a decoded label tag.
pub open spec fn spec_label_from_proto(proto: LabelProto) -> FieldLabel {
    match proto {
        LabelProto::Optional => FieldLabel::Optional,
        LabelProto::Required => FieldLabel::Required,
        LabelProto::Repeated => FieldLabel::Repeated,
    }
}

/// The internal field type denoted by a decoded type tag: message and enum
/// tags keep the referenced type's name, everything else is a marker.
pub open spec fn spec_type_from_proto(proto: TypeProto, type_ref: Seq<char>) -> TypeView {
    match proto {
        TypeProto::Double => TypeView::Double,
        TypeProto::Float => TypeView::Float,
        TypeProto::Int64 => TypeView::Int64,
        TypeProto::UInt64 => TypeView::UInt64,
        TypeProto::Int32 => TypeView::Int32,
        TypeProto::Fixed64 => TypeView::Fixed64,
        TypeProto::Fixed32 => TypeView::Fixed32,
        TypeProto::Bool => TypeView::Bool,
        TypeProto::String => TypeView::String,
        TypeProto::Group => TypeView::Group,
        TypeProto::Message => TypeView::UnresolvedMessage(type_ref),
        TypeProto::Bytes => TypeView::Bytes,
        TypeProto::UInt32 => TypeView::UInt32,
        TypeProto::Enum => TypeView::UnresolvedEnum(type_ref),
        TypeProto::SFixed32 => TypeView::SFixed32,
        TypeProto::SFixed64 => TypeView::SFixed64,
        TypeProto::SInt32 => TypeView::SInt32,
        TypeProto::SInt64 => TypeView::SInt64,
    }
}

/// The byte a source code point contributes to a bytes default: the code
/// point taken modulo 256.
pub open spec fn byte_of_char(c: char) -> u8 {
    (c as u32 % 256) as u8
}

/// What decoding the default text `s` against a field of type `t` yields:
/// `Some` with the typed scalar when `s` is a well-formed default for `t`,
/// `None` otherwise.  Composite types never decode; the `group` type has no
/// decoding at all.
pub open spec fn spec_parse_default(s: Seq<char>, t: TypeView) -> Option<ValueView> {
    match t {
        TypeView::UnresolvedMessage(_) => None,
        TypeView::UnresolvedEnum(_) => None,
        TypeView::Message(_) => None,
        TypeView::Enum(_) => None,
        TypeView::Group => None,
        TypeView::Bool => if s == "true"@ {
            Some(ValueView::Bool(true))
        } else if s == "false"@ {
            Some(ValueView::Bool(false))
        } else {
            None
        },
        TypeView::Double => if s == "inf"@ {
            Some(ValueView::F64Bits(0x7FF0_0000_0000_0000u64))
        } else if s == "-inf"@ {
            Some(ValueView::F64Bits(0xFFF0_0000_0000_0000u64))
        } else if s == "nan"@ {
            Some(ValueView::F64Bits(0x7FF8_0000_0000_0000u64))
        } else {
            match f64_bits_of(s) {
                Some(b) => Some(ValueView::F64Bits(b)),
                None => None,
            }
        },
        TypeView::Float => if s == "inf"@ {
            Some(ValueView::F32Bits(0x7F80_0000u32))
        } else if s == "-inf"@ {
            Some(ValueView::F32Bits(0xFF80_0000u32))
        } else if s == "nan"@ {
            Some(ValueView::F32Bits(0x7FC0_0000u32))
        } else {
            match f64_bits_of(s) {
                Some(b) => Some(ValueView::F32Bits(spec_narrow_f64_bits(b))),
                None => None,
            }
        },
        TypeView::Int32 => match spec_parse_i32(s) {
            Some(v) => Some(ValueView::I32(v)),
            None => None,
        },
        TypeView::SFixed32 => match spec_parse_i32(s) {
            Some(v) => Some(ValueView::I32(v)),
            None => None,
        },
        TypeView::SInt32 => match spec_parse_i32(s) {
            Some(v) => Some(ValueView::I32(v)),
            None => None,
        },
        TypeView::Int64 => match spec_parse_i64(s) {
            Some(v) => Some(ValueView::I64(v)),
            None => None,
        },
        TypeView::SFixed64 => match spec_parse_i64(s) {
            Some(v) => Some(ValueView::I64(v)),
            None => None,
        },
        TypeView::SInt64 => match spec_parse_i64(s) {
            Some(v) => Some(ValueView::I64(v)),
            None => None,
        },
        TypeView::UInt32 => match spec_parse_u32(s) {
            Some(v) => Some(ValueView::U32(v)),
            None => None,
        },
        TypeView::Fixed32 => match spec_parse_u32(s) {
            Some(v) => Some(ValueView::U32(v)),
            None => None,
        },
        TypeView::UInt64 => match spec_parse_u64(s) {
            Some(v) => Some(ValueView::U64(v)),
            None => None,
        },
        TypeView::Fixed64 => match spec_parse_u64(s) {
            Some(v) => Some(ValueView::U64(v)),
            None => None,
        },
        TypeView::String => Some(ValueView::String(s)),
        TypeView::Bytes => Some(ValueView::Bytes(s.map_values(|c: char| byte_of_char(c)))),
    }
}

/// Compares two strings by content.
fn str_eq(a: &str, b: &str) -> (r: bool)
    ensures
        r == (a@ == b@),
{
    let sa: String = a.to_owned();
    let sb: String = b.to_owned();
    sa == sb
}

/// Copies the code points of `s` into bytes, each taken modulo 256.
fn bytes_of_str(s: &str) -> (r: Vec<u8>)
    ensures
        r@ == s@.map_values(|c: char| byte_of_char(c)),
{
    let n: usize = s.unicode_len();
    let mut r: Vec<u8> = Vec::new();
    let mut i: usize = 0;
    while i < n
        invariant
            i <= n,
            n == s@.len(),
            r@ == s@.subrange(0, i as int).map_values(|c: char| byte_of_char(c)),
        decreases n - i,
    {
        let c: char = s.get_char(i);
        r.push((c as u32 % 256) as u8);
        i = i + 1;
        proof {
            assert(s@.subrange(0, i as int).drop_last() =~= s@.subrange(0, i - 1));
            assert(s@.subrange(0, i as int).map_values(|c: char| byte_of_char(c)) =~= s@.subrange(
                0,
                i - 1,
            ).map_values(|c: char| byte_of_char(c)).push(byte_of_char(s@[i - 1])));
        }
    }
    proof {
        assert(s@.subrange(0, n as int) =~= s@);
    }
    r
}

/// Decodes the textual default `value` against `field_type`, as
/// [`spec_parse_default`] describes: the undecodable strings, and only
/// those, come back as a [`Error::BadDefaultValue`] carrying the text.
pub fn parse_default_value(value: &str, field_type: &InternalFieldType) -> (r: Result<
    Value,
    Error,
>)
    requires
        !(field_type matches InternalFieldType::Group),
    ensures
        match r {
            Ok(v) => spec_parse_default(value@, field_type@) == Some(v@),
            Err(e) => spec_parse_default(value@, field_type@) is None && (e matches
                Error::BadDefaultValue { default_value } && default_value@ == value@),
        },
{
    match field_type {
        InternalFieldType::UnresolvedMessage(_) => Err(
            Error::BadDefaultValue { default_value: value.to_owned() },
        ),
        InternalFieldType::UnresolvedEnum(_) => Err(
            Error::BadDefaultValue { default_value: value.to_owned() },
        ),
        InternalFieldType::Message(_) => Err(
            Error::BadDefaultValue { default_value: value.to_owned() },
        ),
        InternalFieldType::Enum(_) => Err(
            Error::BadDefaultValue { default_value: value.to_owned() },
        ),
        InternalFieldType::Group => vstd::pervasive::unreached(),
        InternalFieldType::Bool => {
            if str_eq(value, "true") {
                Ok(Value::Bool(true))
            } else if str_eq(value, "false") {
                Ok(Value::Bool(false))
            } else {
                Err(Error::BadDefaultValue { default_value: value.to_owned() })
            }
        },
        InternalFieldType::Double => {
            if str_eq(value, "inf") {
                Ok(Value::F64Bits(0x7FF0_0000_0000_0000u64))
            } else if str_eq(value, "-inf") {
                Ok(Value::F64Bits(0xFFF0_0000_0000_0000u64))
            } else if str_eq(value, "nan") {
                Ok(Value::F64Bits(0x7FF8_0000_0000_0000u64))
            } else {
                match parse_f64_bits(value) {
                    Some(b) => Ok(Value::F64Bits(b)),
                    None => Err(Error::BadDefaultValue { default_value: value.to_owned() }),
                }
            }
        },
        InternalFieldType::Float => {
            if str_eq(value, "inf") {
                Ok(Value::F32Bits(0x7F80_0000u32))
            } else if str_eq(value, "-inf") {
                Ok(Value::F32Bits(0xFF80_0000u32))
            } else if str_eq(value, "nan") {
                Ok(Value::F32Bits(0x7FC0_0000u32))
            } else {
                match parse_f64_bits(value) {
                    Some(b) => Ok(Value::F32Bits(narrow_f64_bits(b))),
                    None => Err(Error::BadDefaultValue { default_value: value.to_owned() }),
                }
            }
        },
        InternalFieldType::Int32 | InternalFieldType::SFixed32 | InternalFieldType::SInt32 => {
            match parse_i32_str(value) {
                Some(v) => Ok(Value::I32(v)),
                None => Err(Error::BadDefaultValue { default_value: value.to_owned() }),
            }
        },
        InternalFieldType::Int64 | InternalFieldType::SFixed64 | InternalFieldType::SInt64 => {
            match parse_i64_str(value) {
                Some(v) => Ok(Value::I64(v)),
                None => Err(Error::BadDefaultValue { default_value: value.to_owned() }),
            }
        },
        InternalFieldType::UInt32 | InternalFieldType::Fixed32 => {
            match parse_u32_str(value) {
                Some(v) => Ok(Value::U32(v)),
                None => Err(Error::BadDefaultValue { default_value: value.to_owned() }),
            }
        },
        InternalFieldType::UInt64 | InternalFieldType::Fixed64 => {
            match parse_u64_str(value) {
                Some(v) => Ok(Value::U64(v)),
                None => Err(Error::BadDefaultValue { default_value: value.to_owned() }),
            }
        },
        InternalFieldType::String => Ok(Value::String(value.to_owned())),
        InternalFieldType::Bytes => Ok(Value::Bytes(bytes_of_str(value))),
    }
}

impl FieldLabel {
    /// Converts a decoded label tag into a native field label.
    pub fn from_proto(proto: LabelProto) -> (r: FieldLabel)
        ensures
            r == spec_label_from_proto(proto),
    {
        match proto {
            LabelProto::Optional => FieldLabel::Optional,
            LabelProto::Required => FieldLabel::Required,
            LabelProto::Repeated => FieldLabel::Repeated,
        }
    }

    /// Whether the label is repeated.
    pub fn is_repeated(self) -> (r: bool)
        ensures
            r == (self == FieldLabel::Repeated),
    {
        self == FieldLabel::Repeated
    }
}

impl InternalFieldType {
    /// Converts a decoded type tag into a native field type.
    pub fn from_proto(proto: TypeProto, type_ref: &str) -> (r: InternalFieldType)
        ensures
            r@ == spec_type_from_proto(proto, type_ref@),
    {
        match proto {
            TypeProto::Double => InternalFieldType::Double,
            TypeProto::Float => InternalFieldType::Float,
            TypeProto::Int64 => InternalFieldType::Int64,
            TypeProto::UInt64 => InternalFieldType::UInt64,
            TypeProto::Int32 => InternalFieldType::Int32,
            TypeProto::Fixed64 => InternalFieldType::Fixed64,
            TypeProto::Fixed32 => InternalFieldType::Fixed32,
            TypeProto::Bool => InternalFieldType::Bool,
            TypeProto::String => InternalFieldType::String,
            TypeProto::Group => InternalFieldType::Group,
            TypeProto::Message => InternalFieldType::UnresolvedMessage(type_ref.to_owned()),
            TypeProto::Bytes => InternalFieldType::Bytes,
            TypeProto::UInt32 => InternalFieldType::UInt32,
            TypeProto::Enum => InternalFieldType::UnresolvedEnum(type_ref.to_owned()),
            TypeProto::SFixed32 => InternalFieldType::SFixed32,
            TypeProto::SFixed64 => InternalFieldType::SFixed64,
            TypeProto::SInt32 => InternalFieldType::SInt32,
            TypeProto::SInt64 => InternalFieldType::SInt64,
        }
    }
}

impl EnumValueDescriptor {
    /// Creates a new enum value descriptor with the given name and number.
    pub fn new(name: &str, number: i32) -> (r: EnumValueDescriptor)
        ensures
            r@ == (EnumValueView { name: name@, number }),
    {
        EnumValueDescriptor { name: name.to_owned(), number }
    }

    /// Reads an enum value descriptor from a decoded descriptor.
    pub fn from_proto(proto: &EnumValueProto) -> (r: EnumValueDescriptor)
        ensures
            r@ == (EnumValueView { name: proto.name@, number: proto.number }),
    {
        EnumValueDescriptor::new(proto.name.as_str(), proto.number)
    }

    /// The name of the enum value.
    pub fn name(&self) -> (r: &str)
        ensures
            r@ == self@.name,
    {
        self.name.as_str()
    }

    /// The number of the enum value.
    pub fn number(&self) -> (r: i32)
        ensures
            r == self@.number,
    {
        self.number
    }
}

/// The content of the field descriptor that a decoded field descriptor
/// denotes.
pub open spec fn spec_field_from_proto(proto: FieldProto) -> FieldView {
    let ft = spec_type_from_proto(proto.field_type, proto.type_ref@);
    FieldView {
        name: proto.name@,
        number: proto.number,
        label: spec_label_from_proto(proto.label),
        ftype: ft,
        default: match proto.default_value {
            Some(s) => spec_parse_default(s@, ft),
            None => None,
        },
        optional: proto.proto3_optional || spec_label_from_proto(proto.label)
            == FieldLabel::Optional,
    }
}

impl FieldDescriptor {
    /// Creates a new field descriptor.
    pub fn new(
        name: &str,
        number: i32,
        field_label: FieldLabel,
        field_type: InternalFieldType,
        default_value: Option<Value>,
        optional: bool,
    ) -> (r: FieldDescriptor)
        ensures
            r@ == (FieldView {
                name: name@,
                number,
                label: field_label,
                ftype: field_type@,
                default: match default_value {
                    Some(v) => Some(v@),
                    None => None,
                },
                optional,
            }),
    {
        FieldDescriptor {
            name: name.to_owned(),
            number,
            field_label,
            field_type,
            default_value,
            optional,
        }
    }

    /// Reads a field descriptor from a decoded descriptor.  A default value
    /// that fails to decode is silently discarded.
    pub fn from_proto(proto: &FieldProto) -> (r: FieldDescriptor)
        requires
            !(proto.field_type matches TypeProto::Group && proto.default_value is Some),
        ensures
            r@ == spec_field_from_proto(*proto),
    {
        let field_label = FieldLabel::from_proto(proto.label);
        let field_type = InternalFieldType::from_proto(proto.field_type, proto.type_ref.as_str());
        let default_value: Option<Value> = match &proto.default_value {
            Some(s) => match parse_default_value(s.as_str(), &field_type) {
                Ok(v) => Some(v),
                Err(_) => None,
            },
            None => None,
        };
        let optional: bool = proto.proto3_optional || field_label == FieldLabel::Optional;
        FieldDescriptor::new(
            proto.name.as_str(),
            proto.number,
            field_label,
            field_type,
            default_value,
            optional,
        )
    }

    /// The name of the field.
    pub fn name(&self) -> (r: &str)
        ensures
            r@ == self@.name,
    {
        self.name.as_str()
    }

    /// The number of the field.
    pub fn number(&self) -> (r: i32)
        ensures
            r == self@.number,
    {
        self.number
    }

    /// The label of the field.
    pub fn field_label(&self) -> (r: FieldLabel)
        ensures
            r == self@.label,
    {
        self.field_label
    }

    /// Whether the field is repeated.
    pub fn is_repeated(&self) -> (r: bool)
        ensures
            r == (self@.label == FieldLabel::Repeated),
    {
        self.field_label == FieldLabel::Repeated
    }

    /// The default value of the field.
    pub fn default_value(&self) -> (r: Option<&Value>)
        ensures
            match r {
                Some(v) => self@.default == Some(v@),
                None => self@.default is None,
            },
    {
        self.default_value.as_ref()
    }

    /// Whether the field records explicit presence.
    pub fn is_optional(&self) -> (r: bool)
        ensures
            r == self@.optional,
    {
        self.optional
    }
}

} // verus!

verus! {

/// The fully qualified name formed by joining `path` and a local `name`
/// with a dot.
pub open spec fn join_name(path: Seq<char>, name: Seq<char>) -> Seq<char> {
    path + seq!['.'] + name
}

/// Joins a parent path and a local name with a dot.
fn make_fq_name(path: &str, name: &str) -> (r: String)
    ensures
        r@ == join_name(path@, name@),
{
    let mut r: String = path.to_owned();
    r.append(".");
    r.append(name);
    proof {
        reveal_strlit(".");
        assert(r@ =~= path@ + seq!['.'] + name@);
    }
    r
}

/// Index agreement for an enum descriptor: every index entry points at a
/// value in range carrying the key, and every value is indexed under its
/// name and its number.
pub open spec fn enum_wf(e: EnumView) -> bool {
    &&& forall|k: Seq<char>| #[trigger] e.by_name.contains_key(k) ==> e.by_name[k]
        < e.values.len() && e.values[e.by_name[k] as int].name == k
    &&& forall|n: i32| #[trigger] e.by_number.contains_key(n) ==> e.by_number[n]
        < e.values.len() && e.values[e.by_number[n] as int].number == n
    &&& forall|i: int| 0 <= i < e.values.len() ==> e.by_name.contains_key(
        #[trigger] e.values[i].name,
    )
    &&& forall|i: int| 0 <= i < e.values.len() ==> e.by_number.contains_key(
        #[trigger] e.values[i].number,
    )
}

/// Index agreement for a message descriptor, as [`enum_wf`] but over
/// fields.
pub open spec fn message_wf(m: MessageView) -> bool {
    &&& forall|k: Seq<char>| #[trigger] m.by_name.contains_key(k) ==> m.by_name[k]
        < m.fields.len() && m.fields[m.by_name[k] as int].name == k
    &&& forall|n: i32| #[trigger] m.by_number.contains_key(n) ==> m.by_number[n]
        < m.fields.len() && m.fields[m.by_number[n] as int].number == n
    &&& forall|i: int| 0 <= i < m.fields.len() ==> m.by_name.contains_key(
        #[trigger] m.fields[i].name,
    )
    &&& forall|i: int| 0 <= i < m.fields.len() ==> m.by_number.contains_key(
        #[trigger] m.fields[i].number,
    )
}

/// Whether a field type's resolved handles, if any, lie within the given
/// registry bounds.
pub open spec fn type_refs_in(t: TypeView, num_messages: int, num_enums: int) -> bool {
    match t {
        TypeView::Message(h) => 0 <= h < num_messages,
        TypeView::Enum(h) => 0 <= h < num_enums,
        _ => true,
    }
}

/// Whether a field type is free of resolved handles, as every externally
/// built descriptor is: handles cannot be constructed by callers.
pub open spec fn type_unresolved(t: TypeView) -> bool {
    !(t is Message) && !(t is Enum)
}

/// Whether every field of `m` is free of resolved handles.
pub open spec fn message_unresolved(m: MessageView) -> bool {
    forall|i: int| 0 <= i < m.fields.len() ==> type_unresolved(#[trigger] m.fields[i].ftype)
}

/// Whether every handle in `m` lies within the given registry bounds.
pub open spec fn message_refs_in(m: MessageView, num_messages: int, num_enums: int) -> bool {
    forall|i: int| 0 <= i < m.fields.len() ==> type_refs_in(
        #[trigger] m.fields[i].ftype,
        num_messages,
        num_enums,
    )
}

/// Well-formedness of a whole registry: the name indices agree with the
/// descriptor sequences, every descriptor is indexed under its name, each
/// descriptor's own indices agree with its contents, and every resolved
/// handle is in range.
pub open spec fn registry_wf(r: RegistryView) -> bool {
    &&& forall|k: Seq<char>| #[trigger] r.msg_index.contains_key(k) ==> r.msg_index[k]
        < r.messages.len() && r.messages[r.msg_index[k] as int].name == k
    &&& forall|k: Seq<char>| #[trigger] r.enum_index.contains_key(k) ==> r.enum_index[k]
        < r.enums.len() && r.enums[r.enum_index[k] as int].name == k
    &&& forall|i: int| 0 <= i < r.messages.len() ==> r.msg_index.contains_key(
        #[trigger] r.messages[i].name,
    )
    &&& forall|i: int| 0 <= i < r.enums.len() ==> r.enum_index.contains_key(
        #[trigger] r.enums[i].name,
    )
    &&& forall|i: int| 0 <= i < r.messages.len() ==> message_wf(#[trigger] r.messages[i])
        && message_refs_in(r.messages[i], r.messages.len() as int, r.enums.len() as int)
    &&& forall|i: int| 0 <= i < r.enums.len() ==> enum_wf(#[trigger] r.enums[i])
}

impl EnumDescriptor {
    /// Creates a new enum descriptor with the specified enum name.
    pub fn new(name: &str) -> (r: EnumDescriptor)
        ensures
            r@ == (EnumView {
                name: name@,
                values: Seq::<EnumValueView>::empty(),
                by_name: Map::<Seq<char>, usize>::empty(),
                by_number: Map::<i32, usize>::empty(),
            }),
            enum_wf(r@),
    {
        let r = EnumDescriptor {
            name: name.to_owned(),
            values: Vec::new(),
            values_by_name: name_index_new(),
            values_by_number: number_index_new(),
        };
        proof {
            assert(r@ =~= (EnumView {
                name: name@,
                values: Seq::<EnumValueView>::empty(),
                by_name: Map::<Seq<char>, usize>::empty(),
                by_number: Map::<i32, usize>::empty(),
            }));
        }
        r
    }

    /// The name of the enum.
    pub fn name(&self) -> (r: &str)
        ensures
            r@ == self@.name,
    {
        self.name.as_str()
    }

    /// Adds an enum value to the enum: the value is appended, and both
    /// indices point their key at it, displacing any earlier entry under
    /// the same name or number.
    pub fn add_value(&mut self, descriptor: EnumValueDescriptor)
        ensures
            final(self)@.name == old(self)@.name,
            final(self)@.values == old(self)@.values.push(descriptor@),
            final(self)@.by_name == old(self)@.by_name.insert(
                descriptor@.name,
                old(self)@.values.len() as usize,
            ),
            final(self)@.by_number == old(self)@.by_number.insert(
                descriptor@.number,
                old(self)@.values.len() as usize,
            ),
            enum_wf(old(self)@) ==> enum_wf(final(self)@),
    {
        let idx: usize = self.values.len();
        let name: String = descriptor.name.clone();
        let number: i32 = descriptor.number;
        self.values.push(descriptor);
        name_index_insert(&mut self.values_by_name, name, idx);
        number_index_insert(&mut self.values_by_number, number, idx);
        proof {
            assert(final(self)@.values =~= old(self)@.values.push(descriptor@));
        }
    }

    /// Finds a value by name.
    pub fn value_by_name(&self, name: &str) -> (r: Option<&EnumValueDescriptor>)
        requires
            enum_wf(self@),
        ensures
            match r {
                Some(v) => self@.by_name.contains_key(name@) && v@ == self@.values[(
                self@.by_name[name@]) as int],
                None => !self@.by_name.contains_key(name@),
            },
    {
        match name_index_get(&self.values_by_name, name) {
            Some(idx) => {
                proof {
                    assert(self@.by_name.contains_key(name@));
                    assert(idx < self.values@.len());
                }
                Some(&self.values[idx])
            },
            None => None,
        }
    }

    /// Finds a value by number.
    pub fn value_by_number(&self, number: i32) -> (r: Option<&EnumValueDescriptor>)
        requires
            enum_wf(self@),
        ensures
            match r {
                Some(v) => self@.by_number.contains_key(number) && v@ == self@.values[self@
                    .by_number[number] as int],
                None => !self@.by_number.contains_key(number),
            },
    {
        match number_index_get(&self.values_by_number, number) {
            Some(idx) => {
                proof {
                    assert(self@.by_number.contains_key(number));
                    assert(idx < self.values@.len());
                }
                Some(&self.values[idx])
            },
            None => None,
        }
    }
}

/// The empty enum view carrying `name`.
pub open spec fn spec_empty_enum(name: Seq<char>) -> EnumView {
    EnumView {
        name,
        values: Seq::<EnumValueView>::empty(),
        by_name: Map::<Seq<char>, usize>::empty(),
        by_number: Map::<i32, usize>::empty(),
    }
}

/// The enum view `e` extended with one decoded value, as
/// [`EnumDescriptor::add_value`] extends a descriptor.
pub open spec fn spec_enum_value_added(e: EnumView, v: EnumValueProto) -> EnumView {
    EnumView {
        name: e.name,
        values: e.values.push(EnumValueView { name: v.name@, number: v.number }),
        by_name: e.by_name.insert(v.name@, e.values.len() as usize),
        by_number: e.by_number.insert(v.number, e.values.len() as usize),
    }
}

/// The enum view `e` extended with the first `n` decoded values of `vs`,
/// in order.
pub open spec fn spec_enum_values_added(e: EnumView, vs: Vec<EnumValueProto>, n: int) -> EnumView
    decreases n,
{
    if n <= 0 {
        e
    } else {
        spec_enum_value_added(spec_enum_values_added(e, vs, n - 1), vs[n - 1])
    }
}

/// The enum view denoted by a decoded enum descriptor registered under the
/// parent path `path`.
pub open spec fn spec_enum_from_proto(path: Seq<char>, proto: EnumProto) -> EnumView {
    spec_enum_values_added(
        spec_empty_enum(join_name(path, proto.name@)),
        proto.value,
        proto.value.len() as int,
    )
}

impl EnumDescriptor {
    /// Reads an enum descriptor from a decoded descriptor: its fully
    /// qualified name is `path`, a dot, and the local name; its values
    /// follow the decoded order.
    pub fn from_proto(path: &str, proto: &EnumProto) -> (r: EnumDescriptor)
        ensures
            r@ == spec_enum_from_proto(path@, *proto),
            enum_wf(r@),
    {
        let fq: String = make_fq_name(path, proto.name.as_str());
        let mut r = EnumDescriptor::new(fq.as_str());
        let n: usize = proto.value.len();
        let mut i: usize = 0;
        while i < n
            invariant
                i <= n,
                n == proto.value.len(),
                r@ == spec_enum_values_added(
                    spec_empty_enum(join_name(path@, proto.name@)),
                    proto.value,
                    i as int,
                ),
                enum_wf(r@),
            decreases n - i,
        {
            r.add_value(EnumValueDescriptor::from_proto(&proto.value[i]));
            i = i + 1;
        }
        r
    }
}

} // verus!

verus! {

/// Whether the decoded fields carry no default on a `group`-typed field:
/// the `group` construct has no default-value decoding.
pub open spec fn fields_defaults_ok(fs: Vec<FieldProto>) -> bool {
    forall|i: int| 0 <= i < fs.len() ==> !((#[trigger] fs[i].field_type) matches TypeProto::Group
        && fs[i].default_value is Some)
}

/// The empty message view carrying `name`.
pub open spec fn spec_empty_message(name: Seq<char>) -> MessageView {
    MessageView {
        name,
        fields: Seq::<FieldView>::empty(),
        by_name: Map::<Seq<char>, usize>::empty(),
        by_number: Map::<i32, usize>::empty(),
    }
}

/// The message view `m` extended with one field, as
/// [`MessageDescriptor::add_field`] extends a descriptor.
pub open spec fn spec_field_added(m: MessageView, f: FieldView) -> MessageView {
    MessageView {
        name: m.name,
        fields: m.fields.push(f),
        by_name: m.by_name.insert(f.name, m.fields.len() as usize),
        by_number: m.by_number.insert(f.number, m.fields.len() as usize),
    }
}

/// The message view `m` extended with the first `n` decoded fields of
/// `fs`, in order.
pub open spec fn spec_fields_added(m: MessageView, fs: Vec<FieldProto>, n: int) -> MessageView
    decreases n,
{
    if n <= 0 {
        m
    } else {
        spec_field_added(spec_fields_added(m, fs, n - 1), spec_field_from_proto(fs[n - 1]))
    }
}

/// The message view denoted by a decoded message descriptor registered
/// under the parent path `path`; nested types are not part of it.
pub open spec fn spec_message_from_proto(path: Seq<char>, proto: MessageProto) -> MessageView {
    spec_fields_added(
        spec_empty_message(join_name(path, proto.name@)),
        proto.field,
        proto.field.len() as int,
    )
}

impl MessageDescriptor {
    /// Creates a new message descriptor with the specified message name.
    pub fn new(name: &str) -> (r: MessageDescriptor)
        ensures
            r@ == (MessageView {
                name: name@,
                fields: Seq::<FieldView>::empty(),
                by_name: Map::<Seq<char>, usize>::empty(),
                by_number: Map::<i32, usize>::empty(),
            }),
            message_wf(r@),
    {
        let r = MessageDescriptor {
            name: name.to_owned(),
            fields: Vec::new(),
            fields_by_name: name_index_new(),
            fields_by_number: number_index_new(),
        };
        proof {
            assert(r@ =~= (MessageView {
                name: name@,
                fields: Seq::<FieldView>::empty(),
                by_name: Map::<Seq<char>, usize>::empty(),
                by_number: Map::<i32, usize>::empty(),
            }));
        }
        r
    }

    /// The name of the message.
    pub fn name(&self) -> (r: &str)
        ensures
            r@ == self@.name,
    {
        self.name.as_str()
    }

    /// All of the fields in the descriptor, in insertion order.
    pub fn fields(&self) -> (r: &[FieldDescriptor])
        ensures
            r@.map_values(|f: FieldDescriptor| f@) == self@.fields,
    {
        self.fields.as_slice()
    }

    /// Adds a new field to the descriptor: the field is appended, and both
    /// indices point their key at it, displacing any earlier entry under
    /// the same name or number.
    pub fn add_field(&mut self, descriptor: FieldDescriptor)
        ensures
            final(self)@ == spec_field_added(old(self)@, descriptor@),
            message_wf(old(self)@) ==> message_wf(final(self)@),
    {
        let idx: usize = self.fields.len();
        let name: String = descriptor.name.clone();
        let number: i32 = descriptor.number;
        self.fields.push(descriptor);
        name_index_insert(&mut self.fields_by_name, name, idx);
        number_index_insert(&mut self.fields_by_number, number, idx);
        proof {
            assert(final(self)@.fields =~= old(self)@.fields.push(descriptor@));
            assert(final(self)@ =~= spec_field_added(old(self)@, descriptor@));
        }
    }

    /// Finds a field by field name.
    pub fn field_by_name(&self, name: &str) -> (r: Option<&FieldDescriptor>)
        requires
            message_wf(self@),
        ensures
            match r {
                Some(f) => self@.by_name.contains_key(name@) && f@ == self@.fields[(
                self@.by_name[name@]) as int],
                None => !self@.by_name.contains_key(name@),
            },
    {
        match name_index_get(&self.fields_by_name, name) {
            Some(idx) => {
                proof {
                    assert(self@.by_name.contains_key(name@));
                    assert(idx < self.fields@.len());
                }
                Some(&self.fields[idx])
            },
            None => None,
        }
    }

    /// Finds a field by field number.
    pub fn field_by_number(&self, number: i32) -> (r: Option<&FieldDescriptor>)
        requires
            message_wf(self@),
        ensures
            match r {
                Some(f) => self@.by_number.contains_key(number) && f@ == self@.fields[(
                self@.by_number[number]) as int],
                None => !self@.by_number.contains_key(number),
            },
    {
        match number_index_get(&self.fields_by_number, number) {
            Some(idx) => {
                proof {
                    assert(self@.by_number.contains_key(number));
                    assert(idx < self.fields@.len());
                }
                Some(&self.fields[idx])
            },
            None => None,
        }
    }

    /// Reads a message descriptor from a decoded descriptor: its fully
    /// qualified name is `path`, a dot, and the local name; its fields
    /// follow the decoded order.  Nested types are not read here.
    pub fn from_proto(path: &str, proto: &MessageProto) -> (r: MessageDescriptor)
        requires
            fields_defaults_ok(proto.field),
        ensures
            r@ == spec_message_from_proto(path@, *proto),
            message_wf(r@),
    {
        let fq: String = make_fq_name(path, proto.name.as_str());
        let mut r = MessageDescriptor::new(fq.as_str());
        let n: usize = proto.field.len();
        let mut i: usize = 0;
        while i < n
            invariant
                i <= n,
                n == proto.field.len(),
                fields_defaults_ok(proto.field),
                r@ == spec_fields_added(
                    spec_empty_message(join_name(path@, proto.name@)),
                    proto.field,
                    i as int,
                ),
                message_wf(r@),
            decreases n - i,
        {
            r.add_field(FieldDescriptor::from_proto(&proto.field[i]));
            i = i + 1;
        }
        r
    }
}

} // verus!

verus! {

/// Handle bounds are monotone in the registry size.
proof fn lemma_refs_in_mono(m: MessageView, nm1: int, ne1: int, nm2: int, ne2: int)
    requires
        message_refs_in(m, nm1, ne1),
        nm1 <= nm2,
        ne1 <= ne2,
    ensures
        message_refs_in(m, nm2, ne2),
{
    assert forall|i: int| 0 <= i < m.fields.len() implies type_refs_in(
        #[trigger] m.fields[i].ftype,
        nm2,
        ne2,
    ) by {
        assert(type_refs_in(m.fields[i].ftype, nm1, ne1));
    }
}

/// A descriptor without resolved handles satisfies any handle bounds.
proof fn lemma_unresolved_refs_in(m: MessageView, nm: int, ne: int)
    requires
        message_unresolved(m),
    ensures
        message_refs_in(m, nm, ne),
{
    assert forall|i: int| 0 <= i < m.fields.len() implies type_refs_in(
        #[trigger] m.fields[i].ftype,
        nm,
        ne,
    ) by {
        assert(type_unresolved(m.fields[i].ftype));
    }
}

impl Descriptors {
    /// Well-formedness of the registry; established by [`Descriptors::new`]
    /// and preserved by every mutating operation.
    pub open spec fn wf(&self) -> bool {
        registry_wf(self@)
    }

    /// Creates a new empty descriptor registry.
    pub fn new() -> (r: Descriptors)
        ensures
            r@ == (RegistryView {
                messages: Seq::<MessageView>::empty(),
                enums: Seq::<EnumView>::empty(),
                msg_index: Map::<Seq<char>, usize>::empty(),
                enum_index: Map::<Seq<char>, usize>::empty(),
            }),
            r.wf(),
    {
        let r = Descriptors {
            messages: Vec::new(),
            enums: Vec::new(),
            messages_by_name: name_index_new(),
            enums_by_name: name_index_new(),
        };
        proof {
            assert(r@ =~= (RegistryView {
                messages: Seq::<MessageView>::empty(),
                enums: Seq::<EnumView>::empty(),
                msg_index: Map::<Seq<char>, usize>::empty(),
                enum_index: Map::<Seq<char>, usize>::empty(),
            }));
        }
        r
    }

    /// Adds a single custom built message descriptor, registering it under
    /// its fully qualified name; an earlier message under the same name
    /// stays in the sequence but is displaced from the index.
    pub fn add_message(&mut self, descriptor: MessageDescriptor)
        requires
            old(self).wf(),
            message_wf(descriptor@),
            message_unresolved(descriptor@),
        ensures
            final(self)@.messages == old(self)@.messages.push(descriptor@),
            final(self)@.enums == old(self)@.enums,
            final(self)@.msg_index == old(self)@.msg_index.insert(
                descriptor@.name,
                old(self)@.messages.len() as usize,
            ),
            final(self)@.enum_index == old(self)@.enum_index,
            final(self).wf(),
    {
        let idx: usize = self.messages.len();
        let ghost dv = descriptor@;
        let name: String = descriptor.name.clone();
        self.messages.push(descriptor);
        name_index_insert(&mut self.messages_by_name, name, idx);
        proof {
            assert(final(self)@.messages =~= old(self)@.messages.push(dv));
            let r2 = final(self)@;
            assert forall|i: int| 0 <= i < r2.messages.len() implies message_wf(
                #[trigger] r2.messages[i],
            ) && message_refs_in(r2.messages[i], r2.messages.len() as int, r2.enums.len() as int)
                by {
                if i < idx {
                    lemma_refs_in_mono(
                        r2.messages[i],
                        old(self)@.messages.len() as int,
                        old(self)@.enums.len() as int,
                        r2.messages.len() as int,
                        r2.enums.len() as int,
                    );
                } else {
                    lemma_unresolved_refs_in(dv, r2.messages.len() as int, r2.enums.len() as int);
                }
            }
            assert forall|k: Seq<char>| #[trigger] r2.msg_index.contains_key(k) implies r2
                .msg_index[k] < r2.messages.len() && r2.messages[r2.msg_index[k] as int].name == k
                by {
                if k != dv.name {
                    assert(old(self)@.msg_index.contains_key(k));
                }
            }
            assert forall|i: int| 0 <= i < r2.messages.len() implies r2.msg_index.contains_key(
                #[trigger] r2.messages[i].name,
            ) by {
                if i < idx {
                    assert(old(self)@.msg_index.contains_key(old(self)@.messages[i].name));
                }
            }
            assert(final(self).enums_by_name == old(self).enums_by_name);
            assert(r2.enum_index == old(self)@.enum_index);
            assert(r2.enums == old(self)@.enums);
            assert(final(self).wf());
        }
    }

    /// Adds a single custom built enum descriptor, registering it under its
    /// fully qualified name; an earlier enum under the same name stays in
    /// the sequence but is displaced from the index.
    pub fn add_enum(&mut self, descriptor: EnumDescriptor)
        requires
            old(self).wf(),
            enum_wf(descriptor@),
        ensures
            final(self)@.messages == old(self)@.messages,
            final(self)@.enums == old(self)@.enums.push(descriptor@),
            final(self)@.msg_index == old(self)@.msg_index,
            final(self)@.enum_index == old(self)@.enum_index.insert(
                descriptor@.name,
                old(self)@.enums.len() as usize,
            ),
            final(self).wf(),
    {
        let idx: usize = self.enums.len();
        let ghost dv = descriptor@;
        let name: String = descriptor.name.clone();
        self.enums.push(descriptor);
        name_index_insert(&mut self.enums_by_name, name, idx);
        proof {
            assert(final(self)@.enums =~= old(self)@.enums.push(dv));
            let r2 = final(self)@;
            assert forall|i: int| 0 <= i < r2.messages.len() implies message_wf(
                #[trigger] r2.messages[i],
            ) && message_refs_in(r2.messages[i], r2.messages.len() as int, r2.enums.len() as int)
                by {
                lemma_refs_in_mono(
                    r2.messages[i],
                    old(self)@.messages.len() as int,
                    old(self)@.enums.len() as int,
                    r2.messages.len() as int,
                    r2.enums.len() as int,
                );
            }
            assert(final(self).messages_by_name == old(self).messages_by_name);
            assert(r2.msg_index == old(self)@.msg_index);
            assert(r2.messages == old(self)@.messages);
            assert forall|k: Seq<char>| #[trigger] r2.enum_index.contains_key(k) implies r2
                .enum_index[k] < r2.enums.len() && r2.enums[r2.enum_index[k] as int].name == k by {
                if k != dv.name {
                    assert(old(self)@.enum_index.contains_key(k));
                }
            }
            assert forall|i: int| 0 <= i < r2.enums.len() implies r2.enum_index.contains_key(
                #[trigger] r2.enums[i].name,
            ) by {
                if i < idx {
                    assert(old(self)@.enum_index.contains_key(old(self)@.enums[i].name));
                }
            }
            assert(final(self).wf());
        }
    }

    /// Looks up a message by its fully qualified name (i.e.
    /// `.foo.package.Message`).
    pub fn message_by_name(&self, name: &str) -> (r: Option<&MessageDescriptor>)
        requires
            self.wf(),
        ensures
            match r {
                Some(m) => self@.msg_index.contains_key(name@) && m@ == self@.messages[(
                self@.msg_index[name@]) as int],
                None => !self@.msg_index.contains_key(name@),
            },
    {
        match name_index_get(&self.messages_by_name, name) {
            Some(idx) => {
                proof {
                    assert(self@.msg_index.contains_key(name@));
                    assert(idx < self.messages@.len());
                }
                Some(&self.messages[idx])
            },
            None => None,
        }
    }

    /// Looks up an enum by its fully qualified name (i.e.
    /// `.foo.package.Enum`).
    pub fn enum_by_name(&self, name: &str) -> (r: Option<&EnumDescriptor>)
        requires
            self.wf(),
        ensures
            match r {
                Some(e) => self@.enum_index.contains_key(name@) && e@ == self@.enums[(
                self@.enum_index[name@]) as int],
                None => !self@.enum_index.contains_key(name@),
            },
    {
        match name_index_get(&self.enums_by_name, name) {
            Some(idx) => {
                proof {
                    assert(self@.enum_index.contains_key(name@));
                    assert(idx < self.enums@.len());
                }
                Some(&self.enums[idx])
            },
            None => None,
        }
    }
}

} // verus!

verus! {

/// One step of reference resolution: a name held by an unresolved
/// reference whose target is in the index becomes a handle; everything
/// else is left alone.
pub open spec fn spec_resolve_type_ref(
    t: TypeView,
    mi: Map<Seq<char>, usize>,
    ei: Map<Seq<char>, usize>,
) -> TypeView {
    match t {
        TypeView::UnresolvedMessage(n) => if mi.contains_key(n) {
            TypeView::Message(mi[n] as int)
        } else {
            t
        },
        TypeView::UnresolvedEnum(n) => if ei.contains_key(n) {
            TypeView::Enum(ei[n] as int)
        } else {
            t
        },
        _ => t,
    }
}

/// A field with its type reference resolved against the given indices.
pub open spec fn spec_resolve_field(
    f: FieldView,
    mi: Map<Seq<char>, usize>,
    ei: Map<Seq<char>, usize>,
) -> FieldView {
    FieldView { ftype: spec_resolve_type_ref(f.ftype, mi, ei), ..f }
}

/// A message with every field's type reference resolved against the given
/// indices.
pub open spec fn spec_resolve_message(
    m: MessageView,
    mi: Map<Seq<char>, usize>,
    ei: Map<Seq<char>, usize>,
) -> MessageView {
    MessageView { fields: m.fields.map_values(|f: FieldView| spec_resolve_field(f, mi, ei)), ..m }
}

/// The registry after a resolution pass: every field of every message has
/// its type reference resolved against the registry's own indices.
pub open spec fn spec_resolve_refs(r: RegistryView) -> RegistryView {
    RegistryView {
        messages: r.messages.map_values(
            |m: MessageView| spec_resolve_message(m, r.msg_index, r.enum_index),
        ),
        ..r
    }
}

/// A resolution pass preserves well-formedness: names, numbers and indices
/// are untouched, and every handle it writes comes from an index that
/// points into the registry.
proof fn lemma_resolve_refs_wf(r: RegistryView)
    requires
        registry_wf(r),
    ensures
        registry_wf(spec_resolve_refs(r)),
{
    let r2 = spec_resolve_refs(r);
    assert forall|i: int| 0 <= i < r2.messages.len() implies message_wf(#[trigger] r2.messages[i])
        && message_refs_in(r2.messages[i], r2.messages.len() as int, r2.enums.len() as int) by {
        let m = r.messages[i];
        let m2 = r2.messages[i];
        assert(m2 == spec_resolve_message(m, r.msg_index, r.enum_index));
        assert(message_wf(m));
        assert(m2.fields.len() == m.fields.len());
        assert(forall|j: int| 0 <= j < m.fields.len() ==> (#[trigger] m2.fields[j]).name
            == m.fields[j].name && m2.fields[j].number == m.fields[j].number);
        assert forall|j: int| 0 <= j < m2.fields.len() implies type_refs_in(
            (#[trigger] m2.fields[j]).ftype,
            r2.messages.len() as int,
            r2.enums.len() as int,
        ) by {
            assert(type_refs_in(m.fields[j].ftype, r.messages.len() as int, r.enums.len() as int));
            assert(m2.fields[j].ftype == spec_resolve_type_ref(
                m.fields[j].ftype,
                r.msg_index,
                r.enum_index,
            ));
        }
    }
    assert forall|i: int| 0 <= i < r2.messages.len() implies r2.msg_index.contains_key(
        #[trigger] r2.messages[i].name,
    ) by {
        assert(r.msg_index.contains_key(r.messages[i].name));
    }
    assert forall|k: Seq<char>| #[trigger] r2.msg_index.contains_key(k) implies r2.msg_index[k]
        < r2.messages.len() && r2.messages[r2.msg_index[k] as int].name == k by {
        assert(r.msg_index.contains_key(k));
    }
}

impl MessageDescriptor {
    /// Replaces the type of field `j`, leaving everything else in place.
    fn set_field_type(&mut self, j: usize, t: InternalFieldType)
        requires
            j < old(self)@.fields.len(),
        ensures
            final(self)@.name == old(self)@.name,
            final(self)@.by_name == old(self)@.by_name,
            final(self)@.by_number == old(self)@.by_number,
            final(self)@.fields == old(self)@.fields.update(
                j as int,
                (FieldView { ftype: t@, ..old(self)@.fields[j as int] }),
            ),
    {
        proof {
            assert(self@.fields.len() == self.fields@.len());
        }
        let f = &mut self.fields[j];
        f.field_type = t;
        proof {
            assert(final(self)@.fields =~= old(self)@.fields.update(
                j as int,
                (FieldView { ftype: t@, ..old(self)@.fields[j as int] }),
            ));
        }
    }
}

impl Descriptors {
    /// Resolves all internal descriptor type references against the
    /// registry's indices, making them cheaper to follow.  References whose
    /// target is absent are left in place; the pass may be run again after
    /// more types arrive.
    pub fn resolve_refs(&mut self)
        requires
            old(self).wf(),
        ensures
            final(self)@ == spec_resolve_refs(old(self)@),
            final(self).wf(),
    {
        let ghost mi = old(self)@.msg_index;
        let ghost ei = old(self)@.enum_index;
        let nm: usize = self.messages.len();
        let mut i: usize = 0;
        while i < nm
            invariant
                i <= nm,
                nm == self.messages@.len(),
                self@.enums == old(self)@.enums,
                self@.msg_index == mi,
                self@.enum_index == ei,
                mi == old(self)@.msg_index,
                ei == old(self)@.enum_index,
                self@.messages.len() == old(self)@.messages.len(),
                forall|k: int| 0 <= k < i ==> #[trigger] self@.messages[k]
                    == spec_resolve_message(old(self)@.messages[k], mi, ei),
                forall|k: int| i <= k < nm ==> #[trigger] self@.messages[k]
                    == old(self)@.messages[k],
                registry_wf(old(self)@),
            decreases nm - i,
        {
            let ghost m0 = old(self)@.messages[i as int];
            proof {
                assert(self@.messages[i as int] == old(self)@.messages[i as int]);
                assert(self@.messages[i as int] == self.messages@[i as int]@);
            }
            let nf: usize = self.messages[i].fields.len();
            proof {
                assert(nf == self@.messages[i as int].fields.len());
            }
            let mut j: usize = 0;
            while j < nf
                invariant
                    j <= nf,
                    i < nm,
                    nm == self.messages@.len(),
                    self@.enums == old(self)@.enums,
                    self@.msg_index == mi,
                    self@.enum_index == ei,
                    mi == old(self)@.msg_index,
                    ei == old(self)@.enum_index,
                    self@.messages.len() == old(self)@.messages.len(),
                    m0 == old(self)@.messages[i as int],
                    nf == m0.fields.len(),
                    self@.messages[i as int].name == m0.name,
                    self@.messages[i as int].by_name == m0.by_name,
                    self@.messages[i as int].by_number == m0.by_number,
                    self@.messages[i as int].fields.len() == nf,
                    forall|l: int| 0 <= l < j ==> #[trigger] self@.messages[i as int].fields[l]
                        == spec_resolve_field(m0.fields[l], mi, ei),
                    forall|l: int| j <= l < nf ==> #[trigger] self@.messages[i as int].fields[l]
                        == m0.fields[l],
                    forall|k: int| 0 <= k < i ==> #[trigger] self@.messages[k]
                        == spec_resolve_message(old(self)@.messages[k], mi, ei),
                    forall|k: int| i < k < nm ==> #[trigger] self@.messages[k]
                        == old(self)@.messages[k],
                    registry_wf(old(self)@),
                decreases nf - j,
            {
                proof {
                    assert(self@.messages[i as int].fields.len() == self.messages@[
                        i as int].fields@.len());
                }
                let m_ref = &self.messages[i];
                let f_ref = &m_ref.fields[j];
                let ghost f0 = self@.messages[i as int].fields[j as int];
                let decision: Option<InternalFieldType> = match &f_ref.field_type {
                    InternalFieldType::UnresolvedMessage(n) => match name_index_get(
                        &self.messages_by_name,
                        n.as_str(),
                    ) {
                        Some(idx) => Some(InternalFieldType::Message(MessageId(idx))),
                        None => None,
                    },
                    InternalFieldType::UnresolvedEnum(n) => match name_index_get(
                        &self.enums_by_name,
                        n.as_str(),
                    ) {
                        Some(idx) => Some(InternalFieldType::Enum(EnumId(idx))),
                        None => None,
                    },
                    _ => None,
                };
                proof {
                    match &decision {
                        Some(t) => {
                            assert(t@ == spec_resolve_type_ref(f0.ftype, mi, ei));
                        },
                        None => {
                            assert(spec_resolve_type_ref(f0.ftype, mi, ei) == f0.ftype);
                        },
                    }
                }
                let ghost pre = self@;
                match decision {
                    Some(t) => {
                        let ghost tv = t@;
                        proof {
                            assert(pre.messages[i as int] == self.messages@[i as int]@);
                        }
                        let m_mut = &mut self.messages[i];
                        m_mut.set_field_type(j, t);
                        proof {
                            assert(self@.messages =~= pre.messages.update(
                                i as int,
                                self@.messages[i as int],
                            ));
                            assert(self@.msg_index == pre.msg_index);
                            assert(self@.enum_index == pre.enum_index);
                            assert(self@.enums == pre.enums);
                            assert(self@.messages[i as int].fields == pre.messages[
                            i as int].fields.update(
                                j as int,
                                (FieldView { ftype: tv, ..pre.messages[i as int].fields[j as int] }),
                            ));
                            assert(self@.messages[i as int].fields[j as int]
                                == spec_resolve_field(m0.fields[j as int], mi, ei));
                        }
                    },
                    None => {
                        proof {
                            assert(self@ == pre);
                            assert(self@.messages[i as int].fields[j as int]
                                == spec_resolve_field(m0.fields[j as int], mi, ei));
                        }
                    },
                }
                j = j + 1;
            }
            proof {
                assert(self@.messages[i as int].fields =~= m0.fields.map_values(
                    |f: FieldView| spec_resolve_field(f, mi, ei),
                ));
                assert(self@.messages[i as int] =~= spec_resolve_message(m0, mi, ei));
            }
            i = i + 1;
        }
        proof {
            assert(final(self)@.messages =~= old(self)@.messages.map_values(
                |m: MessageView| spec_resolve_message(m, mi, ei),
            ));
            assert(final(self)@ =~= spec_resolve_refs(old(self)@));
            lemma_resolve_refs_wf(old(self)@);
        }
    }
}

} // verus!

verus! {

broadcast use vstd::std_specs::vec::axiom_vec_index_decreases;

/// The public view of a field type, resolved against a registry at read
/// time: unresolved names are looked up, handles are followed, scalars
/// pass through.
pub open spec fn spec_field_type_view(t: TypeView, r: RegistryView) -> FieldTypeView {
    match t {
        TypeView::UnresolvedMessage(n) => if r.msg_index.contains_key(n) {
            FieldTypeView::Message(r.messages[r.msg_index[n] as int])
        } else {
            FieldTypeView::UnresolvedMessage(n)
        },
        TypeView::UnresolvedEnum(n) => if r.enum_index.contains_key(n) {
            FieldTypeView::Enum(r.enums[r.enum_index[n] as int])
        } else {
            FieldTypeView::UnresolvedEnum(n)
        },
        TypeView::Message(h) => FieldTypeView::Message(r.messages[h]),
        TypeView::Enum(h) => FieldTypeView::Enum(r.enums[h]),
        TypeView::Double => FieldTypeView::Double,
        TypeView::Float => FieldTypeView::Float,
        TypeView::Int64 => FieldTypeView::Int64,
        TypeView::UInt64 => FieldTypeView::UInt64,
        TypeView::Int32 => FieldTypeView::Int32,
        TypeView::Fixed64 => FieldTypeView::Fixed64,
        TypeView::Fixed32 => FieldTypeView::Fixed32,
        TypeView::Bool => FieldTypeView::Bool,
        TypeView::String => FieldTypeView::String,
        TypeView::Group => FieldTypeView::Group,
        TypeView::Bytes => FieldTypeView::Bytes,
        TypeView::UInt32 => FieldTypeView::UInt32,
        TypeView::SFixed32 => FieldTypeView::SFixed32,
        TypeView::SFixed64 => FieldTypeView::SFixed64,
        TypeView::SInt32 => FieldTypeView::SInt32,
        TypeView::SInt64 => FieldTypeView::SInt64,
    }
}

impl FieldDescriptor {
    /// The type of the field, resolved against `descriptors` at call time:
    /// unresolved references are looked up on every call, resolved handles
    /// are followed directly.
    pub fn field_type<'a>(&'a self, descriptors: &'a Descriptors) -> (r: FieldType<'a>)
        requires
            descriptors.wf(),
            type_refs_in(
                self@.ftype,
                descriptors@.messages.len() as int,
                descriptors@.enums.len() as int,
            ),
        ensures
            r@ == spec_field_type_view(self@.ftype, descriptors@),
    {
        match &self.field_type {
            InternalFieldType::UnresolvedMessage(n) => match descriptors.message_by_name(
                n.as_str(),
            ) {
                Some(m) => FieldType::Message(m),
                None => FieldType::UnresolvedMessage(n.as_str()),
            },
            InternalFieldType::UnresolvedEnum(n) => match descriptors.enum_by_name(n.as_str()) {
                Some(e) => FieldType::Enum(e),
                None => FieldType::UnresolvedEnum(n.as_str()),
            },
            InternalFieldType::Message(m) => {
                proof {
                    assert(m.spec_index() == m.0 as int);
                    assert(m.0 < descriptors.messages@.len());
                }
                FieldType::Message(&descriptors.messages[m.0])
            },
            InternalFieldType::Enum(e) => {
                proof {
                    assert(e.spec_index() == e.0 as int);
                    assert(e.0 < descriptors.enums@.len());
                }
                FieldType::Enum(&descriptors.enums[e.0])
            },
            InternalFieldType::Double => FieldType::Double,
            InternalFieldType::Float => FieldType::Float,
            InternalFieldType::Int64 => FieldType::Int64,
            InternalFieldType::UInt64 => FieldType::UInt64,
            InternalFieldType::Int32 => FieldType::Int32,
            InternalFieldType::Fixed64 => FieldType::Fixed64,
            InternalFieldType::Fixed32 => FieldType::Fixed32,
            InternalFieldType::Bool => FieldType::Bool,
            InternalFieldType::String => FieldType::String,
            InternalFieldType::Group => FieldType::Group,
            InternalFieldType::Bytes => FieldType::Bytes,
            InternalFieldType::UInt32 => FieldType::UInt32,
            InternalFieldType::SFixed32 => FieldType::SFixed32,
            InternalFieldType::SFixed64 => FieldType::SFixed64,
            InternalFieldType::SInt32 => FieldType::SInt32,
            InternalFieldType::SInt64 => FieldType::SInt64,
        }
    }
}

/// The registry `r` with the enum view `e` registered, as
/// [`Descriptors::add_enum`] registers a descriptor.
pub open spec fn spec_add_enum_view(r: RegistryView, e: EnumView) -> RegistryView {
    RegistryView {
        enums: r.enums.push(e),
        enum_index: r.enum_index.insert(e.name, r.enums.len() as usize),
        ..r
    }
}

/// The registry `r` with the message view `m` registered, as
/// [`Descriptors::add_message`] registers a descriptor.
pub open spec fn spec_add_message_view(r: RegistryView, m: MessageView) -> RegistryView {
    RegistryView {
        messages: r.messages.push(m),
        msg_index: r.msg_index.insert(m.name, r.messages.len() as usize),
        ..r
    }
}

/// The registry `r` with the first `n` decoded enums of `es` registered
/// under the parent path `path`, in order.
pub open spec fn spec_add_enums_upto(
    r: RegistryView,
    path: Seq<char>,
    es: Vec<EnumProto>,
    n: int,
) -> RegistryView
    decreases n,
{
    if n <= 0 {
        r
    } else {
        spec_add_enum_view(
            spec_add_enums_upto(r, path, es, n - 1),
            spec_enum_from_proto(path, es[n - 1]),
        )
    }
}

/// The registry `r` after importing the decoded message `m` under the
/// parent path `path`: first its nested messages, then its nested enums,
/// each under the message's own fully qualified name, and finally the
/// message itself.
pub open spec fn spec_add_message_proto(
    r: RegistryView,
    path: Seq<char>,
    m: MessageProto,
) -> RegistryView
    decreases m, 0int,
{
    let fq = join_name(path, m.name@);
    let r1 = spec_add_message_protos_upto(r, fq, m.nested_type, m.nested_type.len() as int);
    let r2 = spec_add_enums_upto(r1, fq, m.enum_type, m.enum_type.len() as int);
    spec_add_message_view(r2, spec_message_from_proto(path, m))
}

/// The registry `r` after importing the first `n` decoded messages of
/// `ms` under the parent path `path`, in order.
pub open spec fn spec_add_message_protos_upto(
    r: RegistryView,
    path: Seq<char>,
    ms: Vec<MessageProto>,
    n: int,
) -> RegistryView
    decreases ms, n,
        when n <= ms.len()
{
    if n <= 0 {
        r
    } else {
        spec_add_message_proto(spec_add_message_protos_upto(r, path, ms, n - 1), path, ms[n - 1])
    }
}

/// The package path of a decoded file: a dot followed by the package name,
/// or empty when the file has none.
pub open spec fn spec_package_path(f: FileProto) -> Seq<char> {
    match f.package {
        Some(p) => seq!['.'] + p@,
        None => Seq::<char>::empty(),
    }
}

/// The registry `r` after importing the decoded file `f`: its top-level
/// messages, then its top-level enums, all under the file's package path.
pub open spec fn spec_add_file_proto(r: RegistryView, f: FileProto) -> RegistryView {
    let path = spec_package_path(f);
    let r1 = spec_add_message_protos_upto(r, path, f.message_type, f.message_type.len() as int);
    spec_add_enums_upto(r1, path, f.enum_type, f.enum_type.len() as int)
}

/// The registry `r` after importing the first `n` decoded files of `fs`,
/// in order.
pub open spec fn spec_add_files_upto(r: RegistryView, fs: Vec<FileProto>, n: int) -> RegistryView
    decreases n,
{
    if n <= 0 {
        r
    } else {
        spec_add_file_proto(spec_add_files_upto(r, fs, n - 1), fs[n - 1])
    }
}

/// The registry `r` after importing every file of the decoded set `s`, in
/// order.
pub open spec fn spec_add_file_set(r: RegistryView, s: FileSetProto) -> RegistryView {
    spec_add_files_upto(r, s.file, s.file.len() as int)
}

/// Whether no field anywhere in the decoded message, nested ones included,
/// carries a default on a `group`-typed field.
pub open spec fn message_proto_defaults_ok(m: MessageProto) -> bool
    decreases m,
{
    &&& fields_defaults_ok(m.field)
    &&& forall|i: int| 0 <= i < m.nested_type.len() ==> message_proto_defaults_ok(
        #[trigger] m.nested_type[i],
    )
}

/// Whether no field anywhere in the decoded file carries a default on a
/// `group`-typed field.
pub open spec fn file_defaults_ok(f: FileProto) -> bool {
    forall|i: int| 0 <= i < f.message_type.len() ==> message_proto_defaults_ok(
        #[trigger] f.message_type[i],
    )
}

/// Whether no field anywhere in the decoded set carries a default on a
/// `group`-typed field.
pub open spec fn file_set_defaults_ok(s: FileSetProto) -> bool {
    forall|i: int| 0 <= i < s.file.len() ==> file_defaults_ok(#[trigger] s.file[i])
}

/// Folding decoded fields into a message view changes neither its name
/// nor anything but its fields and indices.
pub proof fn lemma_fields_added_name(m: MessageView, fs: Vec<FieldProto>, n: int)
    ensures
        spec_fields_added(m, fs, n).name == m.name,
    decreases n,
{
    if n > 0 {
        lemma_fields_added_name(m, fs, n - 1);
    }
}

/// A message built from a decoded descriptor holds no resolved handles.
proof fn lemma_fields_added_unresolved(m: MessageView, fs: Vec<FieldProto>, n: int)
    requires
        message_unresolved(m),
    ensures
        message_unresolved(spec_fields_added(m, fs, n)),
    decreases n,
{
    if n > 0 {
        lemma_fields_added_unresolved(m, fs, n - 1);
        let prev = spec_fields_added(m, fs, n - 1);
        let f = spec_field_from_proto(fs[n - 1]);
        assert(type_unresolved(f.ftype));
        assert forall|i: int| 0 <= i < prev.fields.push(f).len() implies type_unresolved(
            (#[trigger] prev.fields.push(f)[i]).ftype,
        ) by {
            if i < prev.fields.len() {
                assert(type_unresolved(prev.fields[i].ftype));
            }
        }
    }
}

/// A message read from a decoded descriptor holds no resolved handles.
proof fn lemma_message_from_proto_unresolved(path: Seq<char>, proto: MessageProto)
    ensures
        message_unresolved(spec_message_from_proto(path, proto)),
{
    lemma_fields_added_unresolved(
        spec_empty_message(join_name(path, proto.name@)),
        proto.field,
        proto.field.len() as int,
    );
}

impl Descriptors {
    /// Adds a message and all nested types within that message from the
    /// specified decoded descriptor: nested messages and enums are
    /// registered as siblings at the top level, keyed by their full dotted
    /// names, and the message itself is registered last.
    pub fn add_message_proto(&mut self, path: &str, message_proto: &MessageProto)
        requires
            old(self).wf(),
            message_proto_defaults_ok(*message_proto),
        ensures
            final(self)@ == spec_add_message_proto(old(self)@, path@, *message_proto),
            final(self).wf(),
        decreases *message_proto,
    {
        let message_descriptor = MessageDescriptor::from_proto(path, message_proto);
        let ghost fq = join_name(path@, message_proto.name@);
        proof {
            lemma_fields_added_name(
                spec_empty_message(fq),
                message_proto.field,
                message_proto.field.len() as int,
            );
        }
        let ghost r0 = self@;
        let nn: usize = message_proto.nested_type.len();
        let mut i: usize = 0;
        while i < nn
            invariant
                i <= nn,
                nn == message_proto.nested_type.len(),
                message_proto_defaults_ok(*message_proto),
                message_descriptor@ == spec_message_from_proto(path@, *message_proto),
                message_descriptor@.name == fq,
                fq == join_name(path@, message_proto.name@),
                self@ == spec_add_message_protos_upto(r0, fq, message_proto.nested_type, i as int),
                self.wf(),
            decreases nn - i,
        {
            self.add_message_proto(message_descriptor.name(), &message_proto.nested_type[i]);
            i = i + 1;
        }
        let ghost r1 = self@;
        let ne: usize = message_proto.enum_type.len();
        let mut k: usize = 0;
        while k < ne
            invariant
                k <= ne,
                ne == message_proto.enum_type.len(),
                message_descriptor@ == spec_message_from_proto(path@, *message_proto),
                message_descriptor@.name == fq,
                self@ == spec_add_enums_upto(r1, fq, message_proto.enum_type, k as int),
                self.wf(),
            decreases ne - k,
        {
            let ep = &message_proto.enum_type[k];
            let e = EnumDescriptor::from_proto(message_descriptor.name(), ep);
            self.add_enum(e);
            k = k + 1;
        }
        proof {
            lemma_message_from_proto_unresolved(path@, *message_proto);
        }
        self.add_message(message_descriptor);
        proof {
            assert(final(self)@ =~= spec_add_message_proto(old(self)@, path@, *message_proto));
        }
    }

    /// Adds all types defined in the specified decoded file descriptor to
    /// this registry: its messages, then its enums, under the file's
    /// package path.
    pub fn add_file_proto(&mut self, file_proto: &FileProto)
        requires
            old(self).wf(),
            file_defaults_ok(*file_proto),
        ensures
            final(self)@ == spec_add_file_proto(old(self)@, *file_proto),
            final(self).wf(),
    {
        let path: String = match &file_proto.package {
            Some(p) => {
                let mut s: String = String::new();
                s.append(".");
                s.append(p.as_str());
                proof {
                    reveal_strlit(".");
                    assert(s@ =~= seq!['.'] + p@);
                }
                s
            },
            None => {
                let s = String::new();
                proof {
                    assert(s@ =~= Seq::<char>::empty());
                }
                s
            },
        };
        let ghost r0 = self@;
        let nn: usize = file_proto.message_type.len();
        let mut i: usize = 0;
        while i < nn
            invariant
                i <= nn,
                nn == file_proto.message_type.len(),
                file_defaults_ok(*file_proto),
                path@ == spec_package_path(*file_proto),
                self@ == spec_add_message_protos_upto(
                    r0,
                    path@,
                    file_proto.message_type,
                    i as int,
                ),
                self.wf(),
            decreases nn - i,
        {
            self.add_message_proto(path.as_str(), &file_proto.message_type[i]);
            i = i + 1;
        }
        let ghost r1 = self@;
        let ne: usize = file_proto.enum_type.len();
        let mut k: usize = 0;
        while k < ne
            invariant
                k <= ne,
                ne == file_proto.enum_type.len(),
                path@ == spec_package_path(*file_proto),
                self@ == spec_add_enums_upto(r1, path@, file_proto.enum_type, k as int),
                self.wf(),
            decreases ne - k,
        {
            let e = EnumDescriptor::from_proto(path.as_str(), &file_proto.enum_type[k]);
            self.add_enum(e);
            k = k + 1;
        }
    }

    /// Adds all types defined in the specified decoded file descriptor set
    /// to this registry, file by file, in order.
    pub fn add_file_set_proto(&mut self, file_set_proto: &FileSetProto)
        requires
            old(self).wf(),
            file_set_defaults_ok(*file_set_proto),
        ensures
            final(self)@ == spec_add_file_set(old(self)@, *file_set_proto),
            final(self).wf(),
    {
        let ghost r0 = self@;
        let nn: usize = file_set_proto.file.len();
        let mut i: usize = 0;
        while i < nn
            invariant
                i <= nn,
                nn == file_set_proto.file.len(),
                file_set_defaults_ok(*file_set_proto),
                self@ == spec_add_files_upto(r0, file_set_proto.file, i as int),
                self.wf(),
            decreases nn - i,
        {
            self.add_file_proto(&file_set_proto.file[i]);
            i = i + 1;
        }
    }

    /// Builds a descriptor registry from the specified decoded file
    /// descriptor set.
    pub fn from_proto(file_set_proto: &FileSetProto) -> (r: Descriptors)
        requires
            file_set_defaults_ok(*file_set_proto),
        ensures
            r@ == spec_add_file_set(
                (RegistryView {
                    messages: Seq::<MessageView>::empty(),
                    enums: Seq::<EnumView>::empty(),
                    msg_index: Map::<Seq<char>, usize>::empty(),
                    enum_index: Map::<Seq<char>, usize>::empty(),
                }),
                *file_set_proto,
            ),
            r.wf(),
    {
        let mut descriptors = Descriptors::new();
        descriptors.add_file_set_proto(file_set_proto);
        descriptors
    }
}

} // verus!

verus! {

impl Default for Descriptors {
    /// An empty registry, exactly as [`Descriptors::new`] builds it.
    fn default() -> (r: Descriptors)
        ensures
            r@ == (RegistryView {
                messages: Seq::<MessageView>::empty(),
                enums: Seq::<EnumView>::empty(),
                msg_index: Map::<Seq<char>, usize>::empty(),
                enum_index: Map::<Seq<char>, usize>::empty(),
            }),
            r.wf(),
    {
        Descriptors::new()
    }
}

} // verus!
