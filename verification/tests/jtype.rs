use jvm_common::chars::CharStream;
use jvm_common::error::TypeDescriptorErr;
use jvm_common::jtype::{
    AllocationType, ClassSignature, ClassSignatureSegment, JavaType, PrimitiveType, ReturnType,
    TypeArg,
};
use jvm_common::Value;

fn parse_one_descriptor(s: &str) -> Result<ReturnType, TypeDescriptorErr> {
    let mut it = CharStream::new(s);
    ReturnType::try_recursive(&mut it)
}

fn parse_one_java(s: &str) -> Result<JavaType, TypeDescriptorErr> {
    let mut it = CharStream::new(s);
    JavaType::try_recursive(&mut it)
}

fn parse_one_return(s: &str) -> Result<ReturnType, TypeDescriptorErr> {
    let mut it = CharStream::new(s);
    ReturnType::try_recursive(&mut it)
}

fn parse_and_rest(s: &str) -> (Result<ReturnType, TypeDescriptorErr>, String) {
    let mut it = CharStream::new(s);
    let res = ReturnType::try_recursive(&mut it);
    let rest: String = it.rest();
    (res, rest)
}

#[test]
fn primitives_try_from_char() {
    let cases = vec![
        ('B', PrimitiveType::Byte),
        ('C', PrimitiveType::Char),
        ('D', PrimitiveType::Double),
        ('F', PrimitiveType::Float),
        ('I', PrimitiveType::Int),
        ('J', PrimitiveType::Long),
        ('S', PrimitiveType::Short),
        ('Z', PrimitiveType::Boolean),
    ];
    for (ch, ty) in cases {
        assert_eq!(PrimitiveType::try_from(ch), Ok(ty));
    }
    // invalid primitive
    assert!(PrimitiveType::try_from('Q').is_err());
    // 'V' (Void) is handled by the `Type` enum directly, it's not a `PrimitiveType`
    assert!(PrimitiveType::try_from('V').is_err());
}

#[test]
fn parse_void_descriptor() {
    assert_eq!(parse_one_descriptor("V").unwrap(), ReturnType::Void);
}

#[test]
fn parse_void_return() {
    assert_eq!(parse_one_return("V").unwrap(), ReturnType::Void);
}

#[test]
fn parse_void_java_type_should_fail() {
    assert!(parse_one_java("V").is_err());
}

#[test]
fn parse_instance_object() {
    assert_eq!(
        parse_one_descriptor("Ljava/lang/String;").unwrap(),
        ReturnType::Type(JavaType::Instance("java/lang/String".to_string()))
    );
    assert_eq!(
        parse_one_java("Ljava/lang/String;").unwrap(),
        JavaType::Instance("java/lang/String".to_string())
    );
}

#[test]
fn parse_array_of_primitive() {
    assert_eq!(
        parse_one_descriptor("[I").unwrap(),
        ReturnType::Type(JavaType::Array(Box::new(JavaType::Primitive(
            PrimitiveType::Int
        ))))
    );
    assert_eq!(
        parse_one_java("[I").unwrap(),
        JavaType::Array(Box::new(JavaType::Primitive(PrimitiveType::Int)))
    );
}

#[test]
fn parse_array_of_object() {
    assert_eq!(
        parse_one_descriptor("[Ljava/util/List;").unwrap(),
        ReturnType::Type(JavaType::Array(Box::new(JavaType::Instance(
            "java/util/List".to_string()
        ))))
    );
    assert_eq!(
        parse_one_java("[Ljava/util/List;").unwrap(),
        JavaType::Array(Box::new(JavaType::Instance("java/util/List".to_string())))
    );
}

#[test]
fn parse_multi_dimensional_array() {
    assert_eq!(
        parse_one_descriptor("[[I").unwrap(),
        ReturnType::Type(JavaType::Array(Box::new(JavaType::Array(Box::new(
            JavaType::Primitive(PrimitiveType::Int)
        )))))
    );
    assert_eq!(
        parse_one_java("[[I").unwrap(),
        JavaType::Array(Box::new(JavaType::Array(Box::new(JavaType::Primitive(
            PrimitiveType::Int
        )))))
    );
    assert_eq!(
        parse_one_descriptor("[[Ljava/lang/String;").unwrap(),
        ReturnType::Type(JavaType::Array(Box::new(JavaType::Array(Box::new(
            JavaType::Instance("java/lang/String".to_string())
        )))))
    );
    assert_eq!(
        parse_one_java("[[Ljava/lang/String;").unwrap(),
        JavaType::Array(Box::new(JavaType::Array(Box::new(JavaType::Instance(
            "java/lang/String".to_string()
        )))))
    );
}

#[test]
fn error_unexpected_end_after_l() {
    // Missing ';' terminator
    let err = parse_one_descriptor("Ljava/lang/String").unwrap_err();
    assert!(matches!(err, TypeDescriptorErr::UnexpectedEnd));
}

#[test]
fn error_unexpected_end_after_array_prefix() {
    let err = parse_one_descriptor("[").unwrap_err();
    assert!(matches!(err, TypeDescriptorErr::UnexpectedEnd));
}

#[test]
fn error_invalid_type_tag() {
    let err = parse_one_descriptor("Q").unwrap_err();
    assert!(matches!(err, TypeDescriptorErr::InvalidType('Q')));
}

#[test]
fn consumes_exactly_one_type() {
    let (res, rest) = parse_and_rest("I[Ljava/lang/String;");
    assert_eq!(
        res.unwrap(),
        ReturnType::Type(JavaType::Primitive(PrimitiveType::Int))
    );
    assert_eq!(rest, "[Ljava/lang/String;".to_string()); // untouched remainder
}

#[test]
fn generic_first_segment_only() {
    let s = "Ljava/util/List<+Ljava/lang/CharSequence;>;";
    let t = parse_one_java(s).unwrap();
    assert_eq!(
        t,
        JavaType::GenericInstance(ClassSignature {
            first: ClassSignatureSegment {
                name: "java/util/List".into(),
                args: vec![TypeArg::Extends(Box::new(JavaType::Instance(
                    "java/lang/CharSequence".into()
                )))],
            },
            suffix: vec![],
        })
    );
}

#[test]
fn generic_with_suffix_and_args() {
    let s = "Ljava/util/Map<Ljava/lang/String;Ljava/lang/Integer;>.Entry<Ljava/lang/String;>;";
    let t = parse_one_java(s).unwrap();
    assert_eq!(
        t,
        JavaType::GenericInstance(ClassSignature {
            first: ClassSignatureSegment {
                name: "java/util/Map".into(),
                args: vec![
                    TypeArg::Exact(Box::new(JavaType::Instance("java/lang/String".into()))),
                    TypeArg::Exact(Box::new(JavaType::Instance("java/lang/Integer".into()))),
                ],
            },
            suffix: vec![ClassSignatureSegment {
                name: "Entry".into(),
                args: vec![TypeArg::Exact(Box::new(JavaType::Instance(
                    "java/lang/String".into()
                )))],
            }],
        })
    );
}

#[test]
fn suffix_without_args() {
    let s = "Lpkg/Outer.Inner;";
    let t = parse_one_java(s).unwrap();
    assert_eq!(
        t,
        JavaType::GenericInstance(ClassSignature {
            first: ClassSignatureSegment {
                name: "pkg/Outer".into(),
                args: vec![]
            },
            suffix: vec![ClassSignatureSegment {
                name: "Inner".into(),
                args: vec![]
            }],
        })
    );
}

#[test]
fn error_unexpected_end_in_type_args() {
    // Missing '>'
    let err = parse_one_java("Ljava/util/List<").unwrap_err();
    assert!(matches!(err, TypeDescriptorErr::UnexpectedEnd));
}

#[test]
fn error_invalid_after_type_args() {
    // After '<...>' must be '.' or ';'
    let err = parse_one_java("Ljava/util/List<Ljava/lang/String;>X").unwrap_err();
    assert!(matches!(err, TypeDescriptorErr::InvalidType('X')));
}

// ----- further cases -----

#[test]
fn type_var_and_wildcards() {
    let t = parse_one_java("Ljava/util/Map<*-TK;>;").unwrap();
    assert_eq!(
        t,
        JavaType::GenericInstance(ClassSignature {
            first: ClassSignatureSegment {
                name: "java/util/Map".into(),
                args: vec![
                    TypeArg::Any,
                    TypeArg::Super(Box::new(JavaType::TypeVar("K".into()))),
                ],
            },
            suffix: vec![],
        })
    );
    assert_eq!(t.to_string(), "java.util.Map<?, ? super K>");
}

#[test]
fn error_unexpected_end_in_type_var() {
    assert_eq!(parse_one_java("TK"), Err(TypeDescriptorErr::UnexpectedEnd));
    assert_eq!(parse_one_java(""), Err(TypeDescriptorErr::UnexpectedEnd));
    assert_eq!(parse_one_return(""), Err(TypeDescriptorErr::UnexpectedEnd));
}

#[test]
fn java_type_try_from_str_ignores_what_follows() {
    assert_eq!(
        JavaType::try_from("[JI"),
        Ok(JavaType::Array(Box::new(JavaType::Primitive(PrimitiveType::Long))))
    );
    assert_eq!(JavaType::try_from("V"), Err(TypeDescriptorErr::InvalidType('V')));
}

#[test]
fn descriptor_text_round_trip_keeps_rest() {
    // reading one type leaves exactly what follows it
    let mut it = CharStream::new("Lpkg/A;Lpkg/B;");
    assert_eq!(
        JavaType::try_recursive(&mut it),
        Ok(JavaType::Instance("pkg/A".into()))
    );
    assert_eq!(it.rest(), "Lpkg/B;");
}

#[test]
fn display_of_types() {
    assert_eq!(JavaType::Primitive(PrimitiveType::Boolean).to_string(), "boolean");
    assert_eq!(
        JavaType::Array(Box::new(JavaType::Instance("java/lang/String".into()))).to_string(),
        "java.lang.String[]"
    );
    assert_eq!(ReturnType::Void.to_string(), "void");
    assert_eq!(PrimitiveType::Double.to_string(), "double");
    let t = parse_one_java("Lpkg/Outer<TT;>.In/ner<+Ljava/lang/Number;>;").unwrap();
    assert_eq!(t.to_string(), "pkg.Outer<T>.In/ner<? extends java.lang.Number>");
    assert_eq!(TypeArg::Any.to_string(), "?");
}

#[test]
fn allocation_types_and_defaults() {
    assert_eq!(
        JavaType::Primitive(PrimitiveType::Char).as_allocation_type(),
        AllocationType::Char
    );
    assert_eq!(
        JavaType::Instance("A".into()).as_allocation_type(),
        AllocationType::Reference
    );
    assert_eq!(AllocationType::Long.byte_size(), 8);
    assert_eq!(AllocationType::Boolean.byte_size(), 1);
    assert_eq!(
        AllocationType::Reference.byte_size(),
        std::mem::size_of::<usize>()
    );
    assert_eq!(AllocationType::try_from(8u8), Ok(AllocationType::Reference));
    assert_eq!(AllocationType::try_from(9u8), Err(9u8));
    assert_eq!(PrimitiveType::Float.get_default_value(), Value::Float(0));
    assert_eq!(JavaType::TypeVar("T".into()).get_default_value(), Value::Null);
    assert!(JavaType::Primitive(PrimitiveType::Long).is_compatible_with(&Value::Long(3)));
    assert!(!JavaType::Primitive(PrimitiveType::Long).is_compatible_with(&Value::Integer(3)));
    assert!(JavaType::Array(Box::new(JavaType::Primitive(PrimitiveType::Int)))
        .is_compatible_with(&Value::Null));
    assert!(!ReturnType::Void.is_compatible_with(&Value::Null));
    assert_eq!(PrimitiveType::values().len(), 8);
    assert_eq!(PrimitiveType::values()[4], PrimitiveType::Int);
}

#[test]
fn array_element_types() {
    let ints = JavaType::Array(Box::new(JavaType::Primitive(PrimitiveType::Int)));
    let strs = JavaType::Array(Box::new(JavaType::Instance("java/lang/String".into())));
    assert_eq!(ints.get_primitive_array_element_type(), Some(PrimitiveType::Int));
    assert_eq!(strs.get_primitive_array_element_type(), None);
    assert_eq!(strs.get_instance_array_element_type(), Some("java/lang/String"));
    assert!(ints.is_primitive_array());
    assert!(!strs.is_primitive_array());
    assert_eq!(ints.clone(), ints);
}

#[test]
fn value_accessors() {
    assert_eq!(Value::Ref(7).as_obj_ref().unwrap(), 7);
    assert!(Value::Null.as_obj_ref().is_err());
    assert_eq!(Value::Integer(-2).as_int().unwrap(), -2);
    assert!(Value::Long(1).as_int().is_err());
}
