use jvm_common::error::{SignatureErr, TypeDescriptorErr};
use jvm_common::jtype::{JavaType, PrimitiveType, ReturnType};
use jvm_common::signature::{ClassSignature, MethodSignature};

#[test]
fn method_sig_typevar_return_and_bounds() {
    let sig = MethodSignature::try_from(
        "<R:Ljava/lang/Object;>(Ljava/util/function/Function<-Ljava/lang/String;+TR;>;)TR;",
    )
    .unwrap();

    assert_eq!(sig.type_params.len(), 1);
    assert_eq!(sig.type_params[0].to_string(), "R extends java.lang.Object");

    assert_eq!(sig.params.len(), 1);
    assert_eq!(
        sig.params[0].to_string(),
        "java.util.function.Function<? super java.lang.String, ? extends R>"
    );

    assert_eq!(sig.ret.to_string(), "R");
}

#[test]
fn method_sig_with_throws_and_interface_bounds() {
    let sig = MethodSignature::try_from(
        "<T::Ljava/lang/Comparable<TT;>;:Ljava/io/Serializable;>(TT;I)V^Ljava/io/IOException;^TE;",
    )
    .unwrap();
    assert_eq!(sig.type_params.len(), 1);
    assert_eq!(sig.type_params[0].class_bound, None);
    assert_eq!(sig.type_params[0].interface_bounds.len(), 2);
    assert_eq!(
        sig.type_params[0].to_string(),
        "T extends java.lang.Comparable<T> & java.io.Serializable"
    );
    assert_eq!(
        sig.params,
        vec![
            JavaType::TypeVar("T".into()),
            JavaType::Primitive(PrimitiveType::Int)
        ]
    );
    assert_eq!(sig.ret, ReturnType::Void);
    assert_eq!(
        sig.throws,
        vec![
            JavaType::Instance("java/io/IOException".into()),
            JavaType::TypeVar("E".into())
        ]
    );
    assert_eq!(
        sig.to_string(),
        "<T extends java.lang.Comparable<T> & java.io.Serializable> void throws java.io.IOException, E"
    );
}

#[test]
fn method_sig_errors() {
    assert_eq!(
        MethodSignature::try_from("I)V"),
        Err(SignatureErr::MissingParamsOpenParen)
    );
    assert_eq!(
        MethodSignature::try_from("(I"),
        Err(SignatureErr::MissingParamsCloseParen)
    );
    assert_eq!(
        MethodSignature::try_from("()VX"),
        Err(SignatureErr::TrailingCharacters)
    );
    assert_eq!(
        MethodSignature::try_from("<:Ljava/lang/Object;>()V"),
        Err(SignatureErr::InvalidIdentifier)
    );
    assert_eq!(
        MethodSignature::try_from("<T>()V"),
        Err(SignatureErr::InvalidIdentifier)
    );
    assert_eq!(
        MethodSignature::try_from("<T:Ljava/lang/Object;:>()V"),
        Err(SignatureErr::InvalidBound)
    );
    assert_eq!(
        MethodSignature::try_from("<T:Ljava/lang/Object;"),
        Err(SignatureErr::UnexpectedEnd)
    );
    assert_eq!(
        MethodSignature::try_from("(Q)V"),
        Err(SignatureErr::Type(TypeDescriptorErr::InvalidType('Q')))
    );
}

#[test]
fn class_signature_parse_and_text() {
    let sig = ClassSignature::new(
        "<T:Ljava/lang/Object;>Ljava/util/AbstractList<TT;>;Ljava/util/List<TT;>;Ljava/io/Serializable;",
        false,
    )
    .unwrap();
    assert_eq!(sig.type_params.len(), 1);
    assert_eq!(sig.interfaces.len(), 2);
    assert!(!sig.is_interface);
    assert_eq!(
        sig.to_string(),
        "<T extends java.lang.Object> extends java.util.AbstractList<T> implements java.util.List<T>, java.io.Serializable"
    );

    let iface = ClassSignature::new("Ljava/lang/Object;Ljava/lang/Runnable;", true).unwrap();
    assert_eq!(iface.super_class, JavaType::Instance("java/lang/Object".into()));
    assert_eq!(iface.to_string(), " extends java.lang.Runnable");
}

#[test]
fn class_signature_errors() {
    assert_eq!(ClassSignature::new("", false), Err(SignatureErr::MissingSuper));
    assert_eq!(
        ClassSignature::new("I", false),
        Err(SignatureErr::InvalidSuperClassType)
    );
    assert_eq!(
        ClassSignature::new("Ljava/lang/Object;[I", false),
        Err(SignatureErr::InvalidSuperClassType)
    );
    assert_eq!(
        ClassSignature::new("Ljava/lang/Object", false),
        Err(SignatureErr::Type(TypeDescriptorErr::UnexpectedEnd))
    );
}
