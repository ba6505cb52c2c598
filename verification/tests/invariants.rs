use proto_registry::descriptor::{
    Descriptors, EnumDescriptor, EnumValueDescriptor, FieldDescriptor, FieldLabel,
    InternalFieldType, MessageDescriptor,
};

fn sample_registry() -> Descriptors {
    let mut m = MessageDescriptor::new(".inv.Sample");
    m.add_field(FieldDescriptor::new(
        "alpha",
        1,
        FieldLabel::Optional,
        InternalFieldType::Int32,
        None,
        true,
    ));
    m.add_field(FieldDescriptor::new(
        "beta",
        7,
        FieldLabel::Repeated,
        InternalFieldType::String,
        None,
        false,
    ));
    m.add_field(FieldDescriptor::new(
        "gamma",
        3,
        FieldLabel::Required,
        InternalFieldType::Bool,
        None,
        false,
    ));
    let mut other = MessageDescriptor::new(".inv.Other");
    other.add_field(FieldDescriptor::new(
        "delta",
        1,
        FieldLabel::Optional,
        InternalFieldType::Bytes,
        None,
        true,
    ));
    let mut e = EnumDescriptor::new(".inv.Kind");
    e.add_value(EnumValueDescriptor::new("RED", 10));
    e.add_value(EnumValueDescriptor::new("GREEN", 20));
    e.add_value(EnumValueDescriptor::new("BLUE", 30));
    let mut d = Descriptors::new();
    d.add_message(m);
    d.add_message(other);
    d.add_enum(e);
    d
}

#[test]
fn every_field_found_by_its_own_name_and_number() {
    let d = sample_registry();
    let m = d.message_by_name(".inv.Sample").unwrap();
    for f in m.fields() {
        let by_name = m.field_by_name(f.name()).unwrap();
        assert_eq!(by_name.name(), f.name());
        assert_eq!(by_name.number(), f.number());
        assert_eq!(by_name.field_label(), f.field_label());
        let by_number = m.field_by_number(f.number()).unwrap();
        assert_eq!(by_number.name(), f.name());
        assert_eq!(by_number.number(), f.number());
    }
}

#[test]
fn every_enum_value_found_by_its_own_name_and_number() {
    let d = sample_registry();
    let e = d.enum_by_name(".inv.Kind").unwrap();
    for (name, number) in [("RED", 10), ("GREEN", 20), ("BLUE", 30)] {
        let v = e.value_by_name(name).unwrap();
        assert_eq!(v.name(), name);
        assert_eq!(v.number(), number);
        let w = e.value_by_number(number).unwrap();
        assert_eq!(w.name(), name);
        assert_eq!(w.number(), number);
    }
}

#[test]
fn every_descriptor_found_under_its_own_name() {
    let d = sample_registry();
    for name in [".inv.Sample", ".inv.Other"] {
        let m = d.message_by_name(name).unwrap();
        assert_eq!(m.name(), name);
    }
    let e = d.enum_by_name(".inv.Kind").unwrap();
    assert_eq!(e.name(), ".inv.Kind");
}

#[test]
fn names_collide_across_namespaces_without_clash() {
    let mut d = Descriptors::new();
    d.add_message(MessageDescriptor::new(".x.Thing"));
    let mut e = EnumDescriptor::new(".x.Thing");
    e.add_value(EnumValueDescriptor::new("ONE", 1));
    d.add_enum(e);
    assert!(d.message_by_name(".x.Thing").is_some());
    assert!(d.enum_by_name(".x.Thing").is_some());
    assert_eq!(d.enum_by_name(".x.Thing").unwrap().value_by_number(1).unwrap().name(), "ONE");
}
