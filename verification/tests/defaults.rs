use proto_registry::descriptor::{
    Descriptors, FieldType, InternalFieldType, parse_default_value,
};
use proto_registry::error::Error;
use proto_registry::proto::{
    FieldProto, FileProto, FileSetProto, LabelProto, MessageProto, TypeProto,
};
use proto_registry::value::{Value, narrow_f64_bits};

fn default_field(name: &str, number: i32, field_type: TypeProto, default: &str) -> FieldProto {
    FieldProto {
        name: name.to_owned(),
        number,
        label: LabelProto::Optional,
        field_type,
        type_ref: String::new(),
        default_value: Some(default.to_owned()),
        proto3_optional: false,
    }
}

#[test]
fn bool_defaults() {
    assert_eq!(parse_default_value("true", &InternalFieldType::Bool), Ok(Value::Bool(true)));
    assert_eq!(parse_default_value("false", &InternalFieldType::Bool), Ok(Value::Bool(false)));
    assert_eq!(
        parse_default_value("True", &InternalFieldType::Bool),
        Err(Error::BadDefaultValue { default_value: "True".to_owned() })
    );
}

#[test]
fn double_special_tokens() {
    match parse_default_value("inf", &InternalFieldType::Double).unwrap() {
        Value::F64Bits(b) => {
            let x = f64::from_bits(b);
            assert!(x.is_infinite() && x > 0.0);
        },
        v => panic!("expected double bits, got {:?}", v),
    }
    match parse_default_value("-inf", &InternalFieldType::Double).unwrap() {
        Value::F64Bits(b) => {
            let x = f64::from_bits(b);
            assert!(x.is_infinite() && x < 0.0);
        },
        v => panic!("expected double bits, got {:?}", v),
    }
    match parse_default_value("nan", &InternalFieldType::Double).unwrap() {
        Value::F64Bits(b) => assert!(f64::from_bits(b).is_nan()),
        v => panic!("expected double bits, got {:?}", v),
    }
}

#[test]
fn float_special_tokens() {
    match parse_default_value("inf", &InternalFieldType::Float).unwrap() {
        Value::F32Bits(b) => {
            let x = f32::from_bits(b);
            assert!(x.is_infinite() && x > 0.0);
        },
        v => panic!("expected float bits, got {:?}", v),
    }
    match parse_default_value("-inf", &InternalFieldType::Float).unwrap() {
        Value::F32Bits(b) => {
            let x = f32::from_bits(b);
            assert!(x.is_infinite() && x < 0.0);
        },
        v => panic!("expected float bits, got {:?}", v),
    }
    match parse_default_value("nan", &InternalFieldType::Float).unwrap() {
        Value::F32Bits(b) => assert!(f32::from_bits(b).is_nan()),
        v => panic!("expected float bits, got {:?}", v),
    }
}

#[test]
fn double_decimal_literal() {
    assert_eq!(
        parse_default_value("1.5", &InternalFieldType::Double),
        Ok(Value::F64Bits(1.5f64.to_bits()))
    );
    assert_eq!(
        parse_default_value("-2.25e2", &InternalFieldType::Double),
        Ok(Value::F64Bits((-225.0f64).to_bits()))
    );
    assert_eq!(
        parse_default_value("banana", &InternalFieldType::Double),
        Err(Error::BadDefaultValue { default_value: "banana".to_owned() })
    );
}

#[test]
fn float_decimal_literal() {
    assert_eq!(
        parse_default_value("1.5", &InternalFieldType::Float),
        Ok(Value::F32Bits(1.5f32.to_bits()))
    );
    assert_eq!(
        parse_default_value("0.25", &InternalFieldType::Float),
        Ok(Value::F32Bits(0.25f32.to_bits()))
    );
}

#[test]
fn narrowing_matches_float_semantics() {
    for x in [0.0f64, -0.0, 1.5, -1.5, 3.25e10, 1.0e-40, 3.5e38, -3.5e38, 1.0e39, 6.0e-46] {
        let narrowed = narrow_f64_bits(x.to_bits());
        assert_eq!(
            f32::from_bits(narrowed),
            x as f32,
            "narrowing {} disagreed with the cast",
            x
        );
    }
    let nan = narrow_f64_bits(f64::NAN.to_bits());
    assert!(f32::from_bits(nan).is_nan());
}

#[test]
fn integer_defaults_in_range() {
    assert_eq!(
        parse_default_value("2147483647", &InternalFieldType::Int32),
        Ok(Value::I32(2147483647))
    );
    assert_eq!(
        parse_default_value("-2147483648", &InternalFieldType::SInt32),
        Ok(Value::I32(-2147483648))
    );
    assert_eq!(parse_default_value("+42", &InternalFieldType::SFixed32), Ok(Value::I32(42)));
    assert_eq!(
        parse_default_value("-9223372036854775808", &InternalFieldType::Int64),
        Ok(Value::I64(i64::MIN))
    );
    assert_eq!(
        parse_default_value("9223372036854775807", &InternalFieldType::SInt64),
        Ok(Value::I64(i64::MAX))
    );
    assert_eq!(
        parse_default_value("4294967295", &InternalFieldType::UInt32),
        Ok(Value::U32(u32::MAX))
    );
    assert_eq!(parse_default_value("0", &InternalFieldType::Fixed32), Ok(Value::U32(0)));
    assert_eq!(
        parse_default_value("18446744073709551615", &InternalFieldType::UInt64),
        Ok(Value::U64(u64::MAX))
    );
    assert_eq!(parse_default_value("7", &InternalFieldType::Fixed64), Ok(Value::U64(7)));
}

#[test]
fn out_of_range_integers_fail() {
    assert_eq!(
        parse_default_value("2147483648", &InternalFieldType::Int32),
        Err(Error::BadDefaultValue { default_value: "2147483648".to_owned() })
    );
    assert_eq!(
        parse_default_value("-2147483649", &InternalFieldType::Int32),
        Err(Error::BadDefaultValue { default_value: "-2147483649".to_owned() })
    );
    assert_eq!(
        parse_default_value("9223372036854775808", &InternalFieldType::Int64),
        Err(Error::BadDefaultValue { default_value: "9223372036854775808".to_owned() })
    );
    assert_eq!(
        parse_default_value("4294967296", &InternalFieldType::UInt32),
        Err(Error::BadDefaultValue { default_value: "4294967296".to_owned() })
    );
    assert_eq!(
        parse_default_value("18446744073709551616", &InternalFieldType::UInt64),
        Err(Error::BadDefaultValue { default_value: "18446744073709551616".to_owned() })
    );
    assert_eq!(
        parse_default_value("-1", &InternalFieldType::UInt32),
        Err(Error::BadDefaultValue { default_value: "-1".to_owned() })
    );
    assert_eq!(
        parse_default_value("12x", &InternalFieldType::Int32),
        Err(Error::BadDefaultValue { default_value: "12x".to_owned() })
    );
    assert_eq!(
        parse_default_value("", &InternalFieldType::Int32),
        Err(Error::BadDefaultValue { default_value: "".to_owned() })
    );
}

#[test]
fn string_and_bytes_defaults() {
    assert_eq!(
        parse_default_value("hello", &InternalFieldType::String),
        Ok(Value::String("hello".to_owned()))
    );
    assert_eq!(
        parse_default_value("Ab\u{0101}", &InternalFieldType::Bytes),
        Ok(Value::Bytes(vec![0x41, 0x62, 0x01]))
    );
}

#[test]
fn composite_types_have_no_defaults() {
    assert_eq!(
        parse_default_value("x", &InternalFieldType::UnresolvedMessage(".a.B".to_owned())),
        Err(Error::BadDefaultValue { default_value: "x".to_owned() })
    );
    assert_eq!(
        parse_default_value("x", &InternalFieldType::UnresolvedEnum(".a.E".to_owned())),
        Err(Error::BadDefaultValue { default_value: "x".to_owned() })
    );
}

#[test]
fn error_reports_offending_text() {
    match parse_default_value("oops", &InternalFieldType::Int32) {
        Err(e) => assert_eq!(e.bad_default(), "oops"),
        Ok(v) => panic!("expected an error, got {:?}", v),
    }
}

#[test]
fn imported_defaults_survive_and_bad_ones_drop() {
    let msg = MessageProto {
        name: "WithDefaults".to_owned(),
        field: vec![
            default_field("threshold", 1, TypeProto::Double, "inf"),
            default_field("count", 2, TypeProto::Int32, "41"),
            default_field("broken", 3, TypeProto::Int32, "not-a-number"),
            default_field("label", 4, TypeProto::String, "none"),
        ],
        nested_type: vec![],
        enum_type: vec![],
    };
    let set = FileSetProto {
        file: vec![FileProto {
            package: Some("cfg".to_owned()),
            message_type: vec![msg],
            enum_type: vec![],
        }],
    };
    let d = Descriptors::from_proto(&set);
    let m = d.message_by_name(".cfg.WithDefaults").unwrap();
    match m.field_by_name("threshold").unwrap().default_value() {
        Some(Value::F64Bits(b)) => assert_eq!(f64::from_bits(*b), f64::INFINITY),
        v => panic!("expected a double default, got {:?}", v),
    }
    assert_eq!(m.field_by_name("count").unwrap().default_value(), Some(&Value::I32(41)));
    assert!(m.field_by_name("broken").unwrap().default_value().is_none());
    assert_eq!(
        m.field_by_name("label").unwrap().default_value(),
        Some(&Value::String("none".to_owned()))
    );
    assert!(matches!(
        m.field_by_name("label").unwrap().field_type(&d),
        FieldType::String
    ));
}

#[test]
fn proto3_optional_marks_presence() {
    let msg = MessageProto {
        name: "P".to_owned(),
        field: vec![FieldProto {
            name: "x".to_owned(),
            number: 1,
            label: LabelProto::Repeated,
            field_type: TypeProto::Int32,
            type_ref: String::new(),
            default_value: None,
            proto3_optional: true,
        }],
        nested_type: vec![],
        enum_type: vec![],
    };
    let set = FileSetProto {
        file: vec![FileProto {
            package: None,
            message_type: vec![msg],
            enum_type: vec![],
        }],
    };
    let d = Descriptors::from_proto(&set);
    let f = d.message_by_name(".P").unwrap().field_by_name("x").unwrap();
    assert!(f.is_optional());
    assert!(f.is_repeated());
}
