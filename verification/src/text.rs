//! How types are written in Java source: `int`, `java.lang.String[]`,
//! `java.util.List<? extends T>`.
use vstd::prelude::*;

use crate::chars::{chars_of, push_char};
use crate::descriptor::types_view;
use crate::grammar::{descriptor_of, is_plain_class_name, primitive_char};
use crate::jtype::{
    lemma_segments_view, lemma_type_args_view, segments_view, type_args_view, ClassSignatureSegment,
    JavaType, PrimitiveType, ReturnType, SpecJavaType, SpecReturnType, SpecSegment, SpecTypeArg,
    TypeArg,
};

verus! {

/// The Java keyword of a primitive type.
pub open spec fn primitive_name(p: PrimitiveType) -> Seq<char> {
    match p {
        PrimitiveType::Byte => "byte"@,
        PrimitiveType::Char => "char"@,
        PrimitiveType::Double => "double"@,
        PrimitiveType::Float => "float"@,
        PrimitiveType::Int => "int"@,
        PrimitiveType::Long => "long"@,
        PrimitiveType::Short => "short"@,
        PrimitiveType::Boolean => "boolean"@,
    }
}

/// The Java keyword of the primitive type that a descriptor character stands for, or the
/// empty text for a character that stands for none.
pub open spec fn descriptor_keyword(c: char) -> Seq<char> {
    if c == 'B' {
        "byte"@
    } else if c == 'C' {
        "char"@
    } else if c == 'D' {
        "double"@
    } else if c == 'F' {
        "float"@
    } else if c == 'I' {
        "int"@
    } else if c == 'J' {
        "long"@
    } else if c == 'S' {
        "short"@
    } else if c == 'Z' {
        "boolean"@
    } else {
        Seq::empty()
    }
}

/// A primitive type is written in Java source as the keyword of its descriptor character
/// (`C` is `char`, `J` is `long`), and no two primitive types are written alike.
pub proof fn lemma_primitive_name_is_keyword(p: PrimitiveType, q: PrimitiveType)
    ensures
        primitive_name(p) == descriptor_keyword(primitive_char(p)),
        primitive_name(p).len() > 0,
        primitive_name(p) == primitive_name(q) ==> p == q,
{
    reveal_strlit("byte");
    reveal_strlit("char");
    reveal_strlit("double");
    reveal_strlit("float");
    reveal_strlit("int");
    reveal_strlit("long");
    reveal_strlit("short");
    reveal_strlit("boolean");
    if p != q {
        let a = primitive_name(p);
        let b = primitive_name(q);
        assert(a.len() != b.len() || a[0] != b[0] || a[1] != b[1]);
    }
}

/// An internal class name (`java/lang/String`) in the form of Java source (`java.lang.String`).
pub open spec fn dotted(n: Seq<char>) -> Seq<char> {
    Seq::new(
        n.len(),
        |i: int|
            if n[i] == '/' {
                '.'
            } else {
                n[i]
            },
    )
}

/// Texts one after the other, with `sep` between each two.
pub open spec fn join(items: Seq<Seq<char>>, sep: Seq<char>) -> Seq<char>
    decreases items.len(),
{
    if items.len() == 0 {
        Seq::empty()
    } else if items.len() == 1 {
        items[0]
    } else {
        join(items.drop_last(), sep) + sep + items.last()
    }
}

/// The source forms of types.
pub open spec fn type_texts(ts: Seq<SpecJavaType>) -> Seq<Seq<char>> {
    ts.map_values(|t: SpecJavaType| type_text(t))
}

/// The source form of a type.
pub open spec fn type_text(t: SpecJavaType) -> Seq<char>
    decreases t, 0nat,
{
    match t {
        SpecJavaType::Primitive(p) => primitive_name(p),
        SpecJavaType::Instance(n) => dotted(n),
        SpecJavaType::GenericInstance(sig) => dotted(sig.first.name) + args_text(sig.first.args)
            + suffix_text(sig.suffix),
        SpecJavaType::TypeVar(n) => n,
        SpecJavaType::Array(e) => type_text(*e) + "[]"@,
    }
}

/// The source form of a type argument.
pub open spec fn arg_text(a: SpecTypeArg) -> Seq<char>
    decreases a, 0nat,
{
    match a {
        SpecTypeArg::Any => "?"@,
        SpecTypeArg::Extends(t) => "? extends "@ + type_text(*t),
        SpecTypeArg::Super(t) => "? super "@ + type_text(*t),
        SpecTypeArg::Exact(t) => type_text(*t),
    }
}

/// The three wildcards over one bound print differently: `?`, `? extends` the bound and
/// `? super` the bound.
pub proof fn lemma_wildcards_print_apart(t: SpecJavaType)
    ensures
        arg_text(SpecTypeArg::Any) != arg_text(SpecTypeArg::Extends(Box::new(t))),
        arg_text(SpecTypeArg::Any) != arg_text(SpecTypeArg::Super(Box::new(t))),
        arg_text(SpecTypeArg::Extends(Box::new(t))) != arg_text(SpecTypeArg::Super(Box::new(t))),
{
    reveal_strlit("?");
    reveal_strlit("? extends ");
    reveal_strlit("? super ");
    let e = arg_text(SpecTypeArg::Extends(Box::new(t)));
    let u = arg_text(SpecTypeArg::Super(Box::new(t)));
    assert(arg_text(SpecTypeArg::Any).len() == 1);
    assert(e.len() >= 10);
    assert(u.len() >= 8);
    assert(e[2] == 'e');
    assert(u[2] == 's');
}

/// Type arguments separated by `, `.
pub open spec fn args_list(a: Seq<SpecTypeArg>) -> Seq<char>
    decreases a, 0nat,
{
    if a.len() == 0 {
        Seq::empty()
    } else if a.len() == 1 {
        arg_text(a[0])
    } else {
        args_list(a.drop_last()) + ", "@ + arg_text(a.last())
    }
}

/// Type arguments in `<` `>`, or nothing if there are none.
pub open spec fn args_text(a: Seq<SpecTypeArg>) -> Seq<char>
    decreases a, 1nat,
{
    if a.len() == 0 {
        Seq::empty()
    } else {
        "<"@ + args_list(a) + ">"@
    }
}

/// Inner-class segments, each `.`, its name and its type arguments.
pub open spec fn suffix_text(segs: Seq<SpecSegment>) -> Seq<char>
    decreases segs, 0nat,
{
    if segs.len() == 0 {
        Seq::empty()
    } else {
        suffix_text(segs.drop_last()) + "."@ + segs.last().name + args_text(segs.last().args)
    }
}

/// The source form of a return type.
pub open spec fn return_text(r: SpecReturnType) -> Seq<char> {
    match r {
        SpecReturnType::Void => "void"@,
        SpecReturnType::Type(t) => type_text(t),
    }
}

/// Appends `n` with each `/` written as `.`.
pub(crate) fn write_dotted(out: &mut String, n: &str)
    ensures
        final(out)@ == old(out)@ + dotted(n@),
{
    let cs = chars_of(n);
    let ghost start = out@;
    let mut i: usize = 0;
    while i < cs.len()
        invariant
            cs@ == n@,
            i <= cs.len(),
            out@ == start + dotted(n@.take(i as int)),
        decreases cs.len() - i,
    {
        let c = cs[i];
        if c == '/' {
            push_char(out, '.');
        } else {
            push_char(out, c);
        }
        i = i + 1;
        assert(dotted(n@.take(i as int)) =~= dotted(n@.take(i - 1)).push(
            if c == '/' {
                '.'
            } else {
                c
            },
        ));
    }
    assert(n@.take(i as int) =~= n@);
}

fn write_primitive(out: &mut String, p: PrimitiveType)
    ensures
        final(out)@ == old(out)@ + primitive_name(p),
{
    match p {
        PrimitiveType::Byte => out.append("byte"),
        PrimitiveType::Char => out.append("char"),
        PrimitiveType::Double => out.append("double"),
        PrimitiveType::Float => out.append("float"),
        PrimitiveType::Int => out.append("int"),
        PrimitiveType::Long => out.append("long"),
        PrimitiveType::Short => out.append("short"),
        PrimitiveType::Boolean => out.append("boolean"),
    }
}

/// Appends the source form of a type.
pub(crate) fn write_type(out: &mut String, t: &JavaType)
    ensures
        final(out)@ == old(out)@ + type_text(t@),
    decreases t,
{
    match t {
        JavaType::Primitive(p) => write_primitive(out, *p),
        JavaType::Instance(n) => write_dotted(out, n.as_str()),
        JavaType::GenericInstance(sig) => {
            let ghost start = out@;
            write_dotted(out, sig.first.name.as_str());
            write_args(out, &sig.first.args);
            let ghost mid = out@;
            let mut i: usize = 0;
            proof {
                lemma_segments_view(sig.suffix@);
            }
            while i < sig.suffix.len()
                invariant
                    *t == JavaType::GenericInstance(*sig),
                    i <= sig.suffix.len(),
                    segments_view(sig.suffix@).len() == sig.suffix@.len(),
                    forall|j: int|
                        0 <= j < sig.suffix@.len() ==> #[trigger] segments_view(sig.suffix@)[j]
                            == sig.suffix@[j]@,
                    out@ == mid + suffix_text(segments_view(sig.suffix@).take(i as int)),
                decreases sig.suffix.len() - i,
            {
                let seg: &ClassSignatureSegment = &sig.suffix[i];
                proof {
                    assert(decreases_to!(*t => (*t)->GenericInstance_0));
                    assert((*t)->GenericInstance_0 == *sig);
                    assert(decreases_to!(*sig => sig.suffix));
                    assert(decreases_to!(sig.suffix => sig.suffix@));
                    assert(decreases_to!(sig.suffix@ => sig.suffix@[i as int]));
                    assert(decreases_to!(sig.suffix@[i as int] => sig.suffix@[i as int].args));
                }
                out.append(".");
                out.append(seg.name.as_str());
                write_args(out, &seg.args);
                let ghost v = segments_view(sig.suffix@);
                assert(v.take(i + 1).drop_last() =~= v.take(i as int));
                i = i + 1;
            }
            assert(segments_view(sig.suffix@).take(i as int) =~= segments_view(sig.suffix@));
            assert(t@ == SpecJavaType::GenericInstance(sig@));
            assert(out@ =~= start + type_text(t@));
        },
        JavaType::TypeVar(n) => out.append(n.as_str()),
        JavaType::Array(e) => {
            write_type(out, e);
            out.append("[]");
        },
    }
}

/// Appends the source form of a type argument.
pub(crate) fn write_arg(out: &mut String, a: &TypeArg)
    ensures
        final(out)@ == old(out)@ + arg_text(a@),
    decreases a,
{
    match a {
        TypeArg::Any => out.append("?"),
        TypeArg::Extends(t) => {
            out.append("? extends ");
            write_type(out, t);
        },
        TypeArg::Super(t) => {
            out.append("? super ");
            write_type(out, t);
        },
        TypeArg::Exact(t) => write_type(out, t),
    }
}

/// Appends type arguments in `<` `>`, or nothing if there are none.
pub(crate) fn write_args(out: &mut String, args: &Vec<TypeArg>)
    ensures
        final(out)@ == old(out)@ + args_text(type_args_view(args@)),
    decreases args,
{
    proof {
        lemma_type_args_view(args@);
    }
    let ghost v = type_args_view(args@);
    if args.len() == 0 {
        assert(out@ =~= out@ + args_text(v));
        return ;
    }
    let ghost start = out@;
    out.append("<");
    let mut i: usize = 0;
    while i < args.len()
        invariant
            0 < args.len(),
            i <= args.len(),
            v == type_args_view(args@),
            v.len() == args@.len(),
            forall|j: int| 0 <= j < args@.len() ==> #[trigger] v[j] == args@[j]@,
            out@ == start + "<"@ + args_list(v.take(i as int)),
        decreases args.len() - i,
    {
        if i > 0 {
            out.append(", ");
        }
        write_arg(out, &args[i]);
        assert(v.take(i + 1).drop_last() =~= v.take(i as int));
        i = i + 1;
    }
    out.append(">");
    assert(v.take(i as int) =~= v);
}

/// Appends the source forms of the types in `ts`, with `sep` between each two.
pub(crate) fn write_types_joined(out: &mut String, ts: &Vec<JavaType>, sep: &str)
    ensures
        final(out)@ == old(out)@ + join(type_texts(types_view(ts@)), sep@),
{
    let ghost texts = type_texts(types_view(ts@));
    let ghost start = out@;
    let mut i: usize = 0;
    while i < ts.len()
        invariant
            i <= ts.len(),
            texts == type_texts(types_view(ts@)),
            texts.len() == ts.len(),
            out@ == start + join(texts.take(i as int), sep@),
        decreases ts.len() - i,
    {
        if i > 0 {
            out.append(sep);
        }
        write_type(out, &ts[i]);
        assert(texts[i as int] == type_text(ts@[i as int]@));
        assert(texts.take(i + 1).drop_last() =~= texts.take(i as int));
        i = i + 1;
    }
    assert(texts.take(i as int) =~= texts);
}

/// The number of characters `c` at the start of `s`.
pub open spec fn leading_count(s: Seq<char>, c: char) -> nat
    decreases s.len(),
{
    if s.len() > 0 && s[0] == c {
        1 + leading_count(s.drop_first(), c)
    } else {
        0
    }
}

/// The number of characters `c` at the end of `s`.
pub open spec fn trailing_count(s: Seq<char>, c: char) -> nat
    decreases s.len(),
{
    if s.len() > 0 && s.last() == c {
        1 + trailing_count(s.drop_last(), c)
    } else {
        0
    }
}

proof fn lemma_leading_count(s: Seq<char>, c: char, i: int)
    requires
        0 <= i <= s.len(),
        forall|j: int| 0 <= j < i ==> s[j] == c,
    ensures
        leading_count(s, c) == i + leading_count(s.skip(i), c),
    decreases i,
{
    if i > 0 {
        lemma_leading_count(s.drop_first(), c, i - 1);
        assert(s.drop_first().skip(i - 1) =~= s.skip(i));
    } else {
        assert(s.skip(0) =~= s);
    }
}

proof fn lemma_trailing_count(s: Seq<char>, c: char, i: int)
    requires
        0 <= i <= s.len(),
        forall|j: int| s.len() - i <= j < s.len() ==> s[j] == c,
    ensures
        trailing_count(s, c) == i + trailing_count(s.take(s.len() - i), c),
    decreases i,
{
    if i > 0 {
        lemma_trailing_count(s.drop_last(), c, i - 1);
        assert(s.drop_last().take(s.drop_last().len() - (i - 1)) =~= s.take(s.len() - i));
    } else {
        assert(s.take(s.len() as int) =~= s);
    }
}

/// A class name as printed: without the `L` characters at its start and the `;`
/// characters at its end, and with `.` for `/`.
pub open spec fn pretty_class_name_text(s: Seq<char>) -> Seq<char> {
    let t = s.skip(leading_count(s, 'L') as int);
    dotted(t.take(t.len() - trailing_count(t, ';')))
}

/// The descriptor of a class type, printed as a class name, is the class type in the form
/// of Java source, unless the class name itself starts with `L`.
pub proof fn lemma_pretty_class_name_of_descriptor(n: Seq<char>)
    requires
        is_plain_class_name(n),
        n.len() == 0 || n[0] != 'L',
    ensures
        pretty_class_name_text(descriptor_of(SpecJavaType::Instance(n))) == type_text(
            SpecJavaType::Instance(n),
        ),
{
    let s = descriptor_of(SpecJavaType::Instance(n));
    assert(s =~= seq!['L'] + (n + seq![';']));
    assert(s.drop_first() =~= n + seq![';']);
    assert(leading_count(s.drop_first(), 'L') == 0);
    assert(leading_count(s, 'L') == 1);
    let t = s.skip(1);
    assert(t =~= n + seq![';']);
    assert(t.drop_last() =~= n);
    if n.len() > 0 {
        assert(n.last() != ';');
    }
    assert(trailing_count(n, ';') == 0);
    assert(trailing_count(t, ';') == 1);
    assert(t.take(t.len() - 1) =~= n);
}

/// A class name as printed: `Ljava/lang/String;` becomes `java.lang.String`.
pub fn pretty_class_name(s: &str) -> (r: String)
    ensures
        r@ == pretty_class_name_text(s@),
{
    let cs = chars_of(s);
    let mut start: usize = 0;
    while start < cs.len() && cs[start] == 'L'
        invariant
            cs@ == s@,
            start <= cs.len(),
            forall|j: int| 0 <= j < start ==> s@[j] == 'L',
        decreases cs.len() - start,
    {
        start = start + 1;
    }
    proof {
        lemma_leading_count(s@, 'L', start as int);
    }
    let ghost t = s@.skip(start as int);
    let mut end: usize = cs.len();
    while end > start && cs[end - 1] == ';'
        invariant
            cs@ == s@,
            t == s@.skip(start as int),
            start <= end <= cs.len(),
            forall|j: int| end <= j < cs.len() ==> s@[j] == ';',
        decreases end,
    {
        end = end - 1;
    }
    proof {
        lemma_trailing_count(t, ';', (cs.len() - end) as int);
        assert(t.take(t.len() - (cs.len() - end)) =~= s@.subrange(start as int, end as int));
    }
    let mut out = String::new();
    let mut i: usize = start;
    while i < end
        invariant
            cs@ == s@,
            start <= i <= end <= cs.len(),
            out@ == dotted(s@.subrange(start as int, i as int)),
        decreases end - i,
    {
        let c = cs[i];
        if c == '/' {
            push_char(&mut out, '.');
        } else {
            push_char(&mut out, c);
        }
        i = i + 1;
        assert(out@ =~= dotted(s@.subrange(start as int, i as int)));
    }
    out
}

/// A method name as printed: the constructor name `<init>` in quotes, any other as it is.
pub open spec fn pretty_method_name_text(s: Seq<char>) -> Seq<char> {
    if s == "<init>"@ {
        "\"<init>\""@
    } else {
        s
    }
}

/// A method name as printed: the constructor name `<init>` in quotes, any other as it is.
pub fn pretty_method_name(s: &str) -> (r: String)
    ensures
        r@ == pretty_method_name_text(s@),
{
    let init = "<init>".to_owned();
    let name = s.to_owned();
    if name.eq(&init) {
        "\"<init>\"".to_owned()
    } else {
        name
    }
}

impl PrimitiveType {
    /// The Java keyword of this type.
    pub fn to_string(&self) -> (r: String)
        ensures
            r@ == primitive_name(*self),
    {
        let mut out = String::new();
        write_primitive(&mut out, *self);
        out
    }
}

impl JavaType {
    /// The form of this type in Java source.
    pub fn to_string(&self) -> (r: String)
        ensures
            r@ == type_text(self@),
    {
        let mut out = String::new();
        write_type(&mut out, self);
        out
    }
}

impl TypeArg {
    /// The form of this type argument in Java source.
    pub fn to_string(&self) -> (r: String)
        ensures
            r@ == arg_text(self@),
    {
        let mut out = String::new();
        write_arg(&mut out, self);
        out
    }
}

impl ReturnType {
    /// The form of this return type in Java source.
    pub fn to_string(&self) -> (r: String)
        ensures
            r@ == return_text(self@),
    {
        let mut out = String::new();
        match self {
            ReturnType::Void => out.append("void"),
            ReturnType::Type(t) => write_type(&mut out, t),
        }
        out
    }
}

} // verus!
