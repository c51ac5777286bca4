use jvm_common::descriptor::MethodDescriptor;
use jvm_common::jtype::JavaType;
use jvm_common::signature::MethodSignature;
use jvm_common::text::{pretty_class_name, pretty_method_name};

#[test]
fn pretty_names() {
    assert_eq!(pretty_class_name("Ljava/lang/String;"), "java.lang.String");
    assert_eq!(pretty_class_name("java/util/List"), "java.util.List");
    assert_eq!(pretty_class_name("LLabel;;"), "abel");
    assert_eq!(pretty_class_name("L;"), "");
    assert_eq!(pretty_method_name("<init>"), "\"<init>\"");
    assert_eq!(pretty_method_name("main"), "main");
}

#[test]
fn descriptor_reads_back_as_signature() {
    let d = "(J[[Ljava/lang/Object;Z)Ljava/lang/String;";
    let md = MethodDescriptor::try_from(d).unwrap();
    let ms = MethodSignature::try_from(d).unwrap();
    assert!(ms.type_params.is_empty());
    assert!(ms.throws.is_empty());
    assert_eq!(ms.params, md.params);
    assert_eq!(ms.ret, md.ret);
}

#[test]
fn plain_descriptor_round_trip_examples() {
    for d in ["I", "[[J", "Ljava/lang/Object;", "[Lpkg/Name$Inner;"] {
        let rest = "Z";
        let text = format!("{d}{rest}");
        let mut it = jvm_common::chars::CharStream::new(&text);
        let t = JavaType::try_recursive(&mut it).unwrap();
        assert_eq!(it.rest(), rest);
        // the type reads the same when nothing follows it
        assert_eq!(JavaType::try_from(d).unwrap(), t);
    }
}
