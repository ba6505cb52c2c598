use proto_registry::descriptor::{
    Descriptors, EnumDescriptor, EnumValueDescriptor, FieldDescriptor, FieldLabel, FieldType,
    InternalFieldType, MessageDescriptor,
};
use proto_registry::proto::{
    EnumProto, EnumValueProto, FieldProto, FileProto, FileSetProto, LabelProto, MessageProto,
    TypeProto,
};

fn scalar_field(name: &str, number: i32, label: LabelProto, field_type: TypeProto) -> FieldProto {
    FieldProto {
        name: name.to_owned(),
        number,
        label,
        field_type,
        type_ref: String::new(),
        default_value: None,
        proto3_optional: false,
    }
}

fn ref_field(
    name: &str,
    number: i32,
    label: LabelProto,
    field_type: TypeProto,
    type_ref: &str,
) -> FieldProto {
    FieldProto {
        name: name.to_owned(),
        number,
        label,
        field_type,
        type_ref: type_ref.to_owned(),
        default_value: None,
        proto3_optional: false,
    }
}

fn unittest_file_set() -> FileSetProto {
    let test_all_types = MessageProto {
        name: "TestAllTypes".to_owned(),
        field: vec![
            scalar_field("optional_int32", 1, LabelProto::Optional, TypeProto::Int32),
            scalar_field("optional_fixed32", 7, LabelProto::Optional, TypeProto::Fixed32),
            ref_field(
                "repeated_foreign_message",
                49,
                LabelProto::Repeated,
                TypeProto::Message,
                ".protobuf_unittest.ForeignMessage",
            ),
            ref_field(
                "repeated_foreign_enum",
                52,
                LabelProto::Repeated,
                TypeProto::Enum,
                ".protobuf_unittest.ForeignEnum",
            ),
        ],
        nested_type: vec![],
        enum_type: vec![],
    };
    let foreign_message = MessageProto {
        name: "ForeignMessage".to_owned(),
        field: vec![scalar_field("c", 1, LabelProto::Optional, TypeProto::Int32)],
        nested_type: vec![],
        enum_type: vec![],
    };
    let test_required = MessageProto {
        name: "TestRequired".to_owned(),
        field: vec![scalar_field("a", 1, LabelProto::Required, TypeProto::Int32)],
        nested_type: vec![],
        enum_type: vec![],
    };
    let foreign_enum = EnumProto {
        name: "ForeignEnum".to_owned(),
        value: vec![
            EnumValueProto { name: "FOREIGN_FOO".to_owned(), number: 4 },
            EnumValueProto { name: "FOREIGN_BAR".to_owned(), number: 5 },
            EnumValueProto { name: "FOREIGN_BAZ".to_owned(), number: 6 },
        ],
    };
    FileSetProto {
        file: vec![FileProto {
            package: Some("protobuf_unittest".to_owned()),
            message_type: vec![test_all_types, foreign_message, test_required],
            enum_type: vec![foreign_enum],
        }],
    }
}

#[test]
fn optional_fixed32_number_by_name() {
    let d = Descriptors::from_proto(&unittest_file_set());
    let n = d
        .message_by_name(".protobuf_unittest.TestAllTypes")
        .unwrap()
        .field_by_name("optional_fixed32")
        .unwrap()
        .number();
    assert_eq!(7, n);
}

#[test]
fn optional_int32_field() {
    let d = Descriptors::from_proto(&unittest_file_set());
    let msg = d.message_by_name(".protobuf_unittest.TestAllTypes").unwrap();
    let f = msg.field_by_name("optional_int32").unwrap();
    assert!(matches!(f.field_type(&d), FieldType::Int32));
    assert_eq!(f.field_label(), FieldLabel::Optional);
    assert_eq!(f.number(), 1);
    assert!(!f.is_repeated());
    assert!(f.is_optional());
    let by_num = msg.field_by_number(1).unwrap();
    assert_eq!(by_num.name(), "optional_int32");
}

#[test]
fn repeated_foreign_message_resolves() {
    let mut d = Descriptors::from_proto(&unittest_file_set());
    d.resolve_refs();
    let msg = d.message_by_name(".protobuf_unittest.TestAllTypes").unwrap();
    let f = msg.field_by_name("repeated_foreign_message").unwrap();
    assert_eq!(f.number(), 49);
    assert_eq!(f.field_label(), FieldLabel::Repeated);
    assert!(f.is_repeated());
    match f.field_type(&d) {
        FieldType::Message(m) => assert_eq!(m.name(), ".protobuf_unittest.ForeignMessage"),
        t => panic!("expected a resolved message type, got {:?}", t),
    }
}

#[test]
fn repeated_foreign_enum_resolves() {
    let mut d = Descriptors::from_proto(&unittest_file_set());
    d.resolve_refs();
    let msg = d.message_by_name(".protobuf_unittest.TestAllTypes").unwrap();
    let f = msg.field_by_name("repeated_foreign_enum").unwrap();
    assert_eq!(f.number(), 52);
    assert_eq!(f.field_label(), FieldLabel::Repeated);
    match f.field_type(&d) {
        FieldType::Enum(e) => assert_eq!(e.name(), ".protobuf_unittest.ForeignEnum"),
        t => panic!("expected a resolved enum type, got {:?}", t),
    }
}

#[test]
fn foreign_enum_values() {
    let d = Descriptors::from_proto(&unittest_file_set());
    let e = d.enum_by_name(".protobuf_unittest.ForeignEnum").unwrap();
    assert_eq!(e.value_by_name("FOREIGN_BAR").unwrap().number(), 5);
    assert_eq!(e.value_by_number(4).unwrap().name(), "FOREIGN_FOO");
    assert_eq!(e.value_by_number(6).unwrap().name(), "FOREIGN_BAZ");
    assert!(e.value_by_name("NO_SUCH_VALUE").is_none());
    assert!(e.value_by_number(99).is_none());
}

#[test]
fn test_required_field_a() {
    let d = Descriptors::from_proto(&unittest_file_set());
    let msg = d.message_by_name(".protobuf_unittest.TestRequired").unwrap();
    let f = msg.field_by_name("a").unwrap();
    assert_eq!(f.field_label(), FieldLabel::Required);
    assert_eq!(f.number(), 1);
    assert!(matches!(f.field_type(&d), FieldType::Int32));
}

#[test]
fn no_package_names_start_with_dot() {
    let set = FileSetProto {
        file: vec![FileProto {
            package: None,
            message_type: vec![MessageProto {
                name: "TypeName".to_owned(),
                field: vec![],
                nested_type: vec![],
                enum_type: vec![],
            }],
            enum_type: vec![EnumProto { name: "Color".to_owned(), value: vec![] }],
        }],
    };
    let d = Descriptors::from_proto(&set);
    assert!(d.message_by_name(".TypeName").is_some());
    assert_eq!(d.message_by_name(".TypeName").unwrap().name(), ".TypeName");
    assert!(d.enum_by_name(".Color").is_some());
    assert!(d.message_by_name("TypeName").is_none());
}

#[test]
fn nested_message_registered_under_dotted_key() {
    let inner = MessageProto {
        name: "Inner".to_owned(),
        field: vec![scalar_field("x", 1, LabelProto::Optional, TypeProto::Int32)],
        nested_type: vec![],
        enum_type: vec![],
    };
    let nested_enum = EnumProto {
        name: "Kind".to_owned(),
        value: vec![EnumValueProto { name: "A".to_owned(), number: 0 }],
    };
    let outer = MessageProto {
        name: "Outer".to_owned(),
        field: vec![],
        nested_type: vec![inner],
        enum_type: vec![nested_enum],
    };
    let set = FileSetProto {
        file: vec![FileProto {
            package: Some("pkg".to_owned()),
            message_type: vec![outer],
            enum_type: vec![],
        }],
    };
    let d = Descriptors::from_proto(&set);
    assert!(d.message_by_name(".pkg.Outer").is_some());
    let inner = d.message_by_name(".pkg.Outer.Inner").unwrap();
    assert_eq!(inner.name(), ".pkg.Outer.Inner");
    assert_eq!(inner.field_by_number(1).unwrap().name(), "x");
    assert!(d.enum_by_name(".pkg.Outer.Kind").is_some());
}

#[test]
fn reference_to_later_file_resolves_after_resolve_refs() {
    let first = FileProto {
        package: Some("a".to_owned()),
        message_type: vec![MessageProto {
            name: "Holder".to_owned(),
            field: vec![ref_field(
                "payload",
                1,
                LabelProto::Optional,
                TypeProto::Message,
                ".b.Payload",
            )],
            nested_type: vec![],
            enum_type: vec![],
        }],
        enum_type: vec![],
    };
    let second = FileProto {
        package: Some("b".to_owned()),
        message_type: vec![MessageProto {
            name: "Payload".to_owned(),
            field: vec![scalar_field("data", 1, LabelProto::Optional, TypeProto::String)],
            nested_type: vec![],
            enum_type: vec![],
        }],
        enum_type: vec![],
    };
    let mut d = Descriptors::new();
    d.add_file_proto(&first);
    // The reference dangles while only the first file is present.
    {
        let f = d.message_by_name(".a.Holder").unwrap().field_by_name("payload").unwrap();
        match f.field_type(&d) {
            FieldType::UnresolvedMessage(n) => assert_eq!(n, ".b.Payload"),
            t => panic!("expected an unresolved message type, got {:?}", t),
        }
    }
    d.add_file_proto(&second);
    d.resolve_refs();
    let f = d.message_by_name(".a.Holder").unwrap().field_by_name("payload").unwrap();
    match f.field_type(&d) {
        FieldType::Message(m) => assert_eq!(m.name(), ".b.Payload"),
        t => panic!("expected a resolved message type, got {:?}", t),
    }
}

#[test]
fn resolve_refs_is_idempotent_on_reads() {
    let mut d = Descriptors::from_proto(&unittest_file_set());
    d.resolve_refs();
    d.resolve_refs();
    let msg = d.message_by_name(".protobuf_unittest.TestAllTypes").unwrap();
    match msg.field_by_name("repeated_foreign_message").unwrap().field_type(&d) {
        FieldType::Message(m) => assert_eq!(m.name(), ".protobuf_unittest.ForeignMessage"),
        t => panic!("expected a resolved message type, got {:?}", t),
    }
}

#[test]
fn manually_built_schema() {
    let mut m = MessageDescriptor::new(".mypackage.Person");
    m.add_field(FieldDescriptor::new(
        "name",
        1,
        FieldLabel::Optional,
        InternalFieldType::String,
        None,
        true,
    ));
    m.add_field(FieldDescriptor::new(
        "age",
        2,
        FieldLabel::Optional,
        InternalFieldType::Int32,
        None,
        true,
    ));
    let mut e = EnumDescriptor::new(".mypackage.Color");
    e.add_value(EnumValueDescriptor::new("BLUE", 1));
    e.add_value(EnumValueDescriptor::new("RED", 2));
    let mut descriptors = Descriptors::new();
    descriptors.add_message(m);
    descriptors.add_enum(e);

    let person = descriptors.message_by_name(".mypackage.Person").unwrap();
    assert_eq!(person.fields().len(), 2);
    assert_eq!(person.fields()[0].name(), "name");
    assert_eq!(person.field_by_name("age").unwrap().number(), 2);
    assert_eq!(person.field_by_number(1).unwrap().name(), "name");
    assert!(person.field_by_number(3).is_none());
    let color = descriptors.enum_by_name(".mypackage.Color").unwrap();
    assert_eq!(color.value_by_name("RED").unwrap().number(), 2);
    assert!(descriptors.message_by_name(".mypackage.Color").is_none());
}

#[test]
fn duplicate_enum_values_last_writer_wins() {
    let mut e = EnumDescriptor::new(".p.E");
    e.add_value(EnumValueDescriptor::new("A", 1));
    e.add_value(EnumValueDescriptor::new("A", 2));
    assert_eq!(e.value_by_name("A").unwrap().number(), 2);
    assert_eq!(e.value_by_number(1).unwrap().name(), "A");
    assert_eq!(e.value_by_number(2).unwrap().name(), "A");
}
