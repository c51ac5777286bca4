use jvm_common::access::{ClassAccessFlag, MethodAccessFlag};

#[test]
fn class_flags() {
    let f = ClassAccessFlag::new(0x0001 | 0x0020 | 0x0400);
    assert!(f.is_public());
    assert!(f.is_super());
    assert!(f.is_abstract());
    assert!(!f.is_final());
    assert!(!f.is_interface());
    assert!(!f.is_synthetic());
    assert!(!f.is_annotation());
    assert!(!f.is_enum());
    assert!(!f.is_module());
    assert_eq!(*f.get_raw(), 0x0421);
    let all = ClassAccessFlag::new(0xFFFF);
    assert!(all.is_final() && all.is_interface() && all.is_synthetic());
    assert!(all.is_annotation() && all.is_enum() && all.is_module());
}

#[test]
fn method_flags() {
    let f = MethodAccessFlag::new(0x0002 | 0x0008 | 0x0100 | 0x0800);
    assert!(f.is_private());
    assert!(f.is_static());
    assert!(f.is_native());
    assert!(f.is_strict());
    assert!(!f.is_public());
    assert!(!f.is_protected());
    assert!(!f.is_final());
    assert!(!f.is_synchronized());
    assert!(!f.is_bridge());
    assert!(!f.is_varargs());
    assert!(!f.is_abstract());
    assert!(!f.is_synthetic());
    assert_eq!(*f.get_raw(), 0x090A);
}
