use jvm_common::utils::indent_write::Indented;

#[test]
fn indents_each_line() {
    let mut ind = Indented::new();
    let mut out = String::new();
    out.push_str(&ind.write_str("a\n"));
    let inner = ind.with_indent(|ind| {
        let mut s = ind.write_str("b\nc");
        s.push_str(&ind.write_str("d\n"));
        s
    });
    out.push_str(&inner);
    out.push_str(&ind.write_str("e"));
    assert_eq!(out, "a\n  b\n  cd\ne");
    assert_eq!(ind.level(), 0);
}

#[test]
fn specific_indent_and_restore() {
    let mut ind = Indented::new();
    let s = ind.with_indent(|ind| ind.with_specific_indent(3, |ind| ind.write_str("x\ny\n")));
    assert_eq!(s, "      x\n      y\n");
    assert_eq!(ind.level(), 0);
    assert_eq!(ind.write_str(""), "");
    assert_eq!(ind.write_str("z"), "z");
}
