use jvm_common::chars::CharStream;
use jvm_common::descriptor::MethodDescriptor;
use jvm_common::error::{MethodDescriptorErr, TypeDescriptorErr};
use jvm_common::jtype::{JavaType, PrimitiveType, ReturnType};

// Java: void add(int, int)
#[test]
fn parse_two_ints_void() {
    // given
    let signature = "(II)V";
    let expected_param = vec![
        JavaType::Primitive(PrimitiveType::Int),
        JavaType::Primitive(PrimitiveType::Int),
    ];
    let expected_ret = ReturnType::Void;

    // when
    let md = MethodDescriptor::try_from(signature).unwrap();

    // then
    assert_eq!(md.params, expected_param);
    assert_eq!(md.ret, expected_ret);
}

// Java: int getCount()
#[test]
fn parse_no_params_int_return() {
    let signature = "()I";
    let expected_param: Vec<JavaType> = Vec::new();
    let expected_ret = ReturnType::Type(JavaType::Primitive(PrimitiveType::Int));

    let md = MethodDescriptor::try_from(signature).unwrap();

    assert_eq!(md.params, expected_param);
    assert_eq!(md.ret, expected_ret);
}

// Java: String echo(String)
#[test]
fn parse_string_param_string_return() {
    let signature = "(Ljava/lang/String;)Ljava/lang/String;";
    let expected_param = vec![JavaType::Instance("java/lang/String".into())];
    let expected_ret = ReturnType::Type(JavaType::Instance("java/lang/String".into()));

    let md = MethodDescriptor::try_from(signature).unwrap();

    assert_eq!(md.params, expected_param);
    assert_eq!(md.ret, expected_ret);
}

// Java: int[] process(int, String[])
#[test]
fn parse_array_param_and_return() {
    let signature = "(I[Ljava/lang/String;)[I";
    let expected_param = vec![
        JavaType::Primitive(PrimitiveType::Int),
        JavaType::Array(Box::new(JavaType::Instance("java/lang/String".into()))),
    ];
    let expected_ret = ReturnType::Type(JavaType::Array(Box::new(JavaType::Primitive(
        PrimitiveType::Int,
    ))));

    let md = MethodDescriptor::try_from(signature).unwrap();

    assert_eq!(md.params, expected_param);
    assert_eq!(md.ret, expected_ret);
}

// Java: Object[][] flatten(Object[][])
#[test]
fn parse_multi_dimensional_arrays() {
    let signature = "([[Ljava/lang/Object;)[[Ljava/lang/Object;";
    let obj = JavaType::Instance("java/lang/Object".into());
    let two_d_obj = JavaType::Array(Box::new(JavaType::Array(Box::new(obj.clone()))));
    let expected_param = vec![two_d_obj.clone()];
    let expected_ret = ReturnType::Type(two_d_obj);

    let md = MethodDescriptor::try_from(signature).unwrap();

    assert_eq!(md.params, expected_param);
    assert_eq!(md.ret, expected_ret);
}

// Test that void parameters are rejected
#[test]
fn parse_void_param_should_fail() {
    let signature = "(V)I";
    let result = MethodDescriptor::try_from(signature);
    assert!(result.is_err());
}

// Test field descriptor parsing
#[test]
fn parse_field_descriptor_int() {
    let mut chars = CharStream::new("I");
    let field = JavaType::try_recursive(&mut chars).unwrap();
    assert_eq!(field, JavaType::Primitive(PrimitiveType::Int));
}

#[test]
fn parse_field_descriptor_string() {
    let mut chars = CharStream::new("Ljava/lang/String;");
    let field = JavaType::try_recursive(&mut chars).unwrap();
    assert_eq!(field, JavaType::Instance("java/lang/String".into()));
}

#[test]
fn parse_field_descriptor_array() {
    let mut chars = CharStream::new("[I");
    let field = JavaType::try_recursive(&mut chars).unwrap();
    assert_eq!(
        field,
        JavaType::Array(Box::new(JavaType::Primitive(PrimitiveType::Int)))
    );
}

// Test that void field descriptor is rejected
#[test]
fn parse_field_descriptor_void_should_fail() {
    let mut chars = CharStream::new("V");
    let result = JavaType::try_recursive(&mut chars);
    assert!(result.is_err());
}

// ----- further cases -----

#[test]
fn method_descriptor_errors() {
    assert_eq!(
        MethodDescriptor::try_from("I)V"),
        Err(MethodDescriptorErr::ShouldStartWithParentheses("I)V".into()))
    );
    assert_eq!(
        MethodDescriptor::try_from("(II"),
        Err(MethodDescriptorErr::MissingClosingParenthesis("(II".into()))
    );
    assert_eq!(
        MethodDescriptor::try_from("()VV"),
        Err(MethodDescriptorErr::TrailingCharacters)
    );
    assert_eq!(
        MethodDescriptor::try_from("(V)I"),
        Err(MethodDescriptorErr::Type(
            "(V)I".into(),
            TypeDescriptorErr::InvalidType('V')
        ))
    );
    assert_eq!(
        MethodDescriptor::try_from("()"),
        Err(MethodDescriptorErr::Type("()".into(), TypeDescriptorErr::UnexpectedEnd))
    );
}

#[test]
fn to_java_signature_writes_source_form() {
    let md = MethodDescriptor::try_from("(JI[Ljava/lang/String;)V").unwrap();
    assert_eq!(
        md.to_java_signature("java/lang/Object", "wait"),
        "void java.lang.Object.wait(long, int, java.lang.String[])"
    );
    let none = MethodDescriptor::try_from("()Ljava/lang/String;").unwrap();
    assert_eq!(
        none.to_java_signature("pkg/A", "<init>"),
        "java.lang.String pkg.A.<init>()"
    );
}
