use vstd::prelude::*;

use crate::chars::{push_char, CharStream};
use crate::{HeapRef, Value};
use crate::error::TypeDescriptorErr;
use crate::grammar::{
    find_semicolon, lemma_find_semicolon_bounds, return_type_stop, scan_stop, type_stop, lemma_parse_shortens, lemma_scan_class_body_bounds,
    lemma_segment_name_end_bounds, parse_args, parse_return_type, parse_segments, parse_type,
    primitive_of, scan_class_body, segment_name_end,
};

verus! {

/// A type argument of a generic class type, as it appears between `<` and `>`.
#[derive(Debug, PartialEq, Eq)]
pub enum TypeArg {
    /// `*`
    Any,
    /// `+` followed by a type
    Extends(Box<JavaType>),
    /// `-` followed by a type
    Super(Box<JavaType>),
    /// a type with no prefix
    Exact(Box<JavaType>),
}

/// One `.`-separated segment of a generic class type: a name and its type arguments.
#[derive(Debug, PartialEq, Eq)]
pub struct ClassSignatureSegment {
    pub name: String,
    pub args: Vec<TypeArg>,
}

/// A class type with type arguments or inner-class suffixes
/// (`Lpkg/Outer<TA;>.Inner<TB;>;` without the `L` and `;`).
#[derive(Debug, PartialEq, Eq)]
pub struct ClassSignature {
    pub first: ClassSignatureSegment,
    pub suffix: Vec<ClassSignatureSegment>,
}

#[derive(Debug, Clone, Copy, PartialEq, Eq, Structural)]
pub enum PrimitiveType {
    Byte,
    Char,
    Double,
    Float,
    Int,
    Long,
    Short,
    Boolean,
}

/// Represents any actual Java type (cannot be void).
/// Used for field descriptors and method parameters.
#[derive(Debug, PartialEq, Eq)]
pub enum JavaType {
    Primitive(PrimitiveType),
    Instance(String),
    GenericInstance(ClassSignature),
    TypeVar(String),
    Array(Box<JavaType>),
}

/// Represents a method return type (void or any `JavaType`).
#[derive(Debug, PartialEq, Eq)]
pub enum ReturnType {
    Void,
    Type(JavaType),
}

// ----- Mathematical model: the same shapes, with names as sequences of characters -----

pub enum SpecTypeArg {
    Any,
    Extends(Box<SpecJavaType>),
    Super(Box<SpecJavaType>),
    Exact(Box<SpecJavaType>),
}

pub struct SpecSegment {
    pub name: Seq<char>,
    pub args: Seq<SpecTypeArg>,
}

pub struct SpecClassSig {
    pub first: SpecSegment,
    pub suffix: Seq<SpecSegment>,
}

pub enum SpecJavaType {
    Primitive(PrimitiveType),
    Instance(Seq<char>),
    GenericInstance(SpecClassSig),
    TypeVar(Seq<char>),
    Array(Box<SpecJavaType>),
}

pub enum SpecReturnType {
    Void,
    Type(SpecJavaType),
}

pub open spec fn type_view(t: JavaType) -> SpecJavaType
    decreases t,
{
    match t {
        JavaType::Primitive(p) => SpecJavaType::Primitive(p),
        JavaType::Instance(n) => SpecJavaType::Instance(n@),
        JavaType::GenericInstance(sig) => SpecJavaType::GenericInstance(
            SpecClassSig { first: segment_view(sig.first), suffix: segments_view(sig.suffix@) },
        ),
        JavaType::TypeVar(n) => SpecJavaType::TypeVar(n@),
        JavaType::Array(e) => SpecJavaType::Array(Box::new(type_view(*e))),
    }
}

pub open spec fn type_arg_view(a: TypeArg) -> SpecTypeArg
    decreases a,
{
    match a {
        TypeArg::Any => SpecTypeArg::Any,
        TypeArg::Extends(t) => SpecTypeArg::Extends(Box::new(type_view(*t))),
        TypeArg::Super(t) => SpecTypeArg::Super(Box::new(type_view(*t))),
        TypeArg::Exact(t) => SpecTypeArg::Exact(Box::new(type_view(*t))),
    }
}

pub open spec fn type_args_view(s: Seq<TypeArg>) -> Seq<SpecTypeArg>
    decreases s,
{
    if s.len() == 0 {
        Seq::empty()
    } else {
        type_args_view(s.drop_last()).push(type_arg_view(s.last()))
    }
}

pub open spec fn segment_view(seg: ClassSignatureSegment) -> SpecSegment
    decreases seg,
{
    SpecSegment { name: seg.name@, args: type_args_view(seg.args@) }
}

pub open spec fn segments_view(s: Seq<ClassSignatureSegment>) -> Seq<SpecSegment>
    decreases s,
{
    if s.len() == 0 {
        Seq::empty()
    } else {
        segments_view(s.drop_last()).push(segment_view(s.last()))
    }
}

impl View for JavaType {
    type V = SpecJavaType;

    open spec fn view(&self) -> SpecJavaType {
        type_view(*self)
    }
}

impl View for ReturnType {
    type V = SpecReturnType;

    open spec fn view(&self) -> SpecReturnType {
        match self {
            ReturnType::Void => SpecReturnType::Void,
            ReturnType::Type(t) => SpecReturnType::Type(t@),
        }
    }
}

impl View for ClassSignature {
    type V = SpecClassSig;

    open spec fn view(&self) -> SpecClassSig {
        SpecClassSig { first: segment_view(self.first), suffix: segments_view(self.suffix@) }
    }
}

impl View for ClassSignatureSegment {
    type V = SpecSegment;

    open spec fn view(&self) -> SpecSegment {
        segment_view(*self)
    }
}

impl View for TypeArg {
    type V = SpecTypeArg;

    open spec fn view(&self) -> SpecTypeArg {
        type_arg_view(*self)
    }
}

pub proof fn lemma_type_args_view(s: Seq<TypeArg>)
    ensures
        type_args_view(s).len() == s.len(),
        forall|i: int| 0 <= i < s.len() ==> #[trigger] type_args_view(s)[i] == type_arg_view(s[i]),
    decreases s.len(),
{
    if s.len() > 0 {
        lemma_type_args_view(s.drop_last());
    }
}

pub proof fn lemma_segments_view(s: Seq<ClassSignatureSegment>)
    ensures
        segments_view(s).len() == s.len(),
        forall|i: int| 0 <= i < s.len() ==> #[trigger] segments_view(s)[i] == segment_view(s[i]),
    decreases s.len(),
{
    if s.len() > 0 {
        lemma_segments_view(s.drop_last());
    }
}

proof fn lemma_type_args_view_push(s: Seq<TypeArg>, a: TypeArg)
    ensures
        type_args_view(s.push(a)) == type_args_view(s).push(type_arg_view(a)),
{
    assert(s.push(a).drop_last() =~= s);
}

proof fn lemma_segments_view_push(s: Seq<ClassSignatureSegment>, a: ClassSignatureSegment)
    ensures
        segments_view(s.push(a)) == segments_view(s).push(segment_view(a)),
{
    assert(s.push(a).drop_last() =~= s);
}

/// What a parse of type arguments gives when `done` has already been read.
pub open spec fn after_args(
    done: Seq<SpecTypeArg>,
    r: Result<(Seq<SpecTypeArg>, Seq<char>), TypeDescriptorErr>,
) -> Result<(Seq<SpecTypeArg>, Seq<char>), TypeDescriptorErr> {
    match r {
        Ok((args, after)) => Ok((done + args, after)),
        Err(e) => Err(e),
    }
}

/// What a parse of segments gives when `done` has already been read.
pub open spec fn after_segments(
    done: Seq<SpecSegment>,
    r: Result<Seq<SpecSegment>, TypeDescriptorErr>,
) -> Result<Seq<SpecSegment>, TypeDescriptorErr> {
    match r {
        Ok(segs) => Ok(done + segs),
        Err(e) => Err(e),
    }
}

/// What a parse into a type gives, by the model of the type.
pub open spec fn parsed_as(
    r: Result<JavaType, TypeDescriptorErr>,
    spec: Result<(SpecJavaType, Seq<char>), TypeDescriptorErr>,
    rest: Seq<char>,
) -> bool {
    match spec {
        Ok((t, after)) => r matches Ok(v) && v@ == t && rest == after,
        Err(e) => r == Err::<JavaType, TypeDescriptorErr>(e),
    }
}


/// The kind of storage that an array element or field of some type needs.
#[derive(Debug, Clone, Copy, PartialEq, Eq, Structural)]
pub enum AllocationType {
    Byte,
    Char,
    Double,
    Float,
    Int,
    Long,
    Short,
    Boolean,
    Reference,
}

impl AllocationType {
    /// The number of bytes that a value of this kind takes.
    pub fn byte_size(&self) -> (r: usize)
        ensures
            r == match *self {
                AllocationType::Byte | AllocationType::Boolean => 1,
                AllocationType::Char | AllocationType::Short => 2,
                AllocationType::Int | AllocationType::Float => 4,
                AllocationType::Long | AllocationType::Double => 8,
                AllocationType::Reference => vstd::layout::size_of::<HeapRef>(),
            },
    {
        match self {
            AllocationType::Byte | AllocationType::Boolean => 1,
            AllocationType::Char | AllocationType::Short => 2,
            AllocationType::Int | AllocationType::Float => 4,
            AllocationType::Long | AllocationType::Double => 8,
            AllocationType::Reference => core::mem::size_of::<HeapRef>(),
        }
    }
}

/// The kind with the number `value`, in the order of declaration.
pub open spec fn allocation_type_of(value: u8) -> Option<AllocationType> {
    if value == 0 {
        Some(AllocationType::Byte)
    } else if value == 1 {
        Some(AllocationType::Char)
    } else if value == 2 {
        Some(AllocationType::Double)
    } else if value == 3 {
        Some(AllocationType::Float)
    } else if value == 4 {
        Some(AllocationType::Int)
    } else if value == 5 {
        Some(AllocationType::Long)
    } else if value == 6 {
        Some(AllocationType::Short)
    } else if value == 7 {
        Some(AllocationType::Boolean)
    } else if value == 8 {
        Some(AllocationType::Reference)
    } else {
        None
    }
}

impl TryFrom<u8> for AllocationType {
    /// The number that names no kind.
    type Error = u8;

    fn try_from(value: u8) -> (r: Result<Self, Self::Error>) {
        match value {
            0 => Ok(AllocationType::Byte),
            1 => Ok(AllocationType::Char),
            2 => Ok(AllocationType::Double),
            3 => Ok(AllocationType::Float),
            4 => Ok(AllocationType::Int),
            5 => Ok(AllocationType::Long),
            6 => Ok(AllocationType::Short),
            7 => Ok(AllocationType::Boolean),
            8 => Ok(AllocationType::Reference),
            _ => Err(value),
        }
    }
}

impl vstd::std_specs::convert::TryFromSpecImpl<u8> for AllocationType {
    open spec fn obeys_try_from_spec() -> bool {
        true
    }

    open spec fn try_from_spec(value: u8) -> Result<Self, Self::Error> {
        match allocation_type_of(value) {
            Some(t) => Ok(t),
            None => Err(value),
        }
    }
}

/// The default value of a field of a primitive type.
pub open spec fn primitive_default(p: PrimitiveType) -> Value {
    match p {
        PrimitiveType::Byte | PrimitiveType::Char | PrimitiveType::Short | PrimitiveType::Int
        | PrimitiveType::Boolean => Value::Integer(0),
        PrimitiveType::Double => Value::Double(0),
        PrimitiveType::Float => Value::Float(0),
        PrimitiveType::Long => Value::Long(0),
    }
}

/// Whether a value can be stored in a variable of a primitive type.
pub open spec fn primitive_accepts(p: PrimitiveType, v: Value) -> bool {
    match (p, v) {
        (PrimitiveType::Byte, Value::Integer(_)) | (PrimitiveType::Char, Value::Integer(_)) | (
            PrimitiveType::Short,
            Value::Integer(_),
        ) | (PrimitiveType::Int, Value::Integer(_)) | (PrimitiveType::Boolean, Value::Integer(_))
        | (PrimitiveType::Long, Value::Long(_)) | (PrimitiveType::Float, Value::Float(_)) | (
            PrimitiveType::Double,
            Value::Double(_),
        ) => true,
        _ => false,
    }
}

/// Whether a value can be stored in a variable of a type; a reference type takes any
/// reference or `null`, whatever its class.
pub open spec fn type_accepts(t: SpecJavaType, v: Value) -> bool {
    match t {
        SpecJavaType::Primitive(p) => primitive_accepts(p, v),
        _ => v is Ref || v is Null,
    }
}

/// The default value of a variable of a type: zero for a primitive type, `null` otherwise.
pub open spec fn type_default(t: SpecJavaType) -> Value {
    match t {
        SpecJavaType::Primitive(p) => primitive_default(p),
        _ => Value::Null,
    }
}

/// Whether a value is a numeric zero: `int` or `long` zero, or the bits of `+0.0`.
pub open spec fn is_zero_value(v: Value) -> bool {
    match v {
        Value::Integer(x) => x == 0,
        Value::Long(x) => x == 0,
        Value::Float(bits) => bits == 0,
        Value::Double(bits) => bits == 0,
        _ => false,
    }
}

/// The default value of a primitive type is the zero of that type: it can be stored in a
/// variable of the type, it is a numeric zero, and it is the only zero that the type takes.
pub proof fn lemma_primitive_default_is_its_zero(p: PrimitiveType, v: Value)
    ensures
        primitive_accepts(p, primitive_default(p)),
        is_zero_value(primitive_default(p)),
        primitive_accepts(p, v) && is_zero_value(v) ==> v == primitive_default(p),
{
}

/// The default value of any type can be stored in a variable of that type, and it is a
/// numeric zero exactly for the primitive types.
pub proof fn lemma_default_value_fits(t: SpecJavaType)
    ensures
        type_accepts(t, type_default(t)),
        is_zero_value(type_default(t)) <==> t is Primitive,
        !(t is Primitive) ==> type_default(t) == Value::Null,
{
    if let SpecJavaType::Primitive(p) = t {
        lemma_primitive_default_is_its_zero(p, type_default(t));
    }
}

impl PrimitiveType {
    /// All primitive types, in the order of declaration.
    pub fn values() -> (r: [PrimitiveType; 8])
        ensures
            r@ == seq![
                PrimitiveType::Byte,
                PrimitiveType::Char,
                PrimitiveType::Double,
                PrimitiveType::Float,
                PrimitiveType::Int,
                PrimitiveType::Long,
                PrimitiveType::Short,
                PrimitiveType::Boolean,
            ],
    {
        let r = [
            PrimitiveType::Byte,
            PrimitiveType::Char,
            PrimitiveType::Double,
            PrimitiveType::Float,
            PrimitiveType::Int,
            PrimitiveType::Long,
            PrimitiveType::Short,
            PrimitiveType::Boolean,
        ];
        assert(r@ =~= seq![
            PrimitiveType::Byte,
            PrimitiveType::Char,
            PrimitiveType::Double,
            PrimitiveType::Float,
            PrimitiveType::Int,
            PrimitiveType::Long,
            PrimitiveType::Short,
            PrimitiveType::Boolean,
        ]);
        r
    }

    /// The default value of a field of this type: zero.
    pub fn get_default_value(&self) -> (r: Value)
        ensures
            r == primitive_default(*self),
    {
        match self {
            PrimitiveType::Byte | PrimitiveType::Char | PrimitiveType::Short | PrimitiveType::Int
            | PrimitiveType::Boolean => Value::Integer(0),
            PrimitiveType::Double => Value::Double(0),
            PrimitiveType::Float => Value::Float(0),
            PrimitiveType::Long => Value::Long(0),
        }
    }

    pub fn is_compatible_with(&self, value: &Value) -> (r: bool)
        ensures
            r == primitive_accepts(*self, *value),
    {
        match (self, value) {
            (PrimitiveType::Byte, Value::Integer(_)) | (PrimitiveType::Char, Value::Integer(_)) | (
                PrimitiveType::Short,
                Value::Integer(_),
            ) | (PrimitiveType::Int, Value::Integer(_)) | (
                PrimitiveType::Boolean,
                Value::Integer(_),
            ) | (PrimitiveType::Long, Value::Long(_)) | (PrimitiveType::Float, Value::Float(_))
            | (PrimitiveType::Double, Value::Double(_)) => true,
            _ => false,
        }
    }
}

impl JavaType {
    /// The kind of storage for a value of this type; only primitive, class and array types have one.
    pub fn as_allocation_type(&self) -> (r: AllocationType)
        requires
            self is Primitive || self is Instance || self is Array,
        ensures
            r == match *self {
                JavaType::Primitive(p) => match p {
                    PrimitiveType::Byte => AllocationType::Byte,
                    PrimitiveType::Char => AllocationType::Char,
                    PrimitiveType::Double => AllocationType::Double,
                    PrimitiveType::Float => AllocationType::Float,
                    PrimitiveType::Int => AllocationType::Int,
                    PrimitiveType::Long => AllocationType::Long,
                    PrimitiveType::Short => AllocationType::Short,
                    PrimitiveType::Boolean => AllocationType::Boolean,
                },
                _ => AllocationType::Reference,
            },
    {
        match self {
            JavaType::Primitive(prim) => match prim {
                PrimitiveType::Byte => AllocationType::Byte,
                PrimitiveType::Char => AllocationType::Char,
                PrimitiveType::Double => AllocationType::Double,
                PrimitiveType::Float => AllocationType::Float,
                PrimitiveType::Int => AllocationType::Int,
                PrimitiveType::Long => AllocationType::Long,
                PrimitiveType::Short => AllocationType::Short,
                PrimitiveType::Boolean => AllocationType::Boolean,
            },
            _ => AllocationType::Reference,
        }
    }

    /// The element type of a one-dimensional array of a primitive type.
    pub fn get_primitive_array_element_type(&self) -> (r: Option<PrimitiveType>)
        ensures
            r == match self@ {
                SpecJavaType::Array(e) => match *e {
                    SpecJavaType::Primitive(p) => Some(p),
                    _ => None,
                },
                _ => None,
            },
    {
        proof {
            reveal_with_fuel(type_view, 2);
        }
        match self {
            JavaType::Array(elem) => match &**elem {
                JavaType::Primitive(prim) => Some(*prim),
                _ => None,
            },
            _ => None,
        }
    }

    /// The class name of the elements of a one-dimensional array of a (non-generic) class type.
    pub fn get_instance_array_element_type(&self) -> (r: Option<&str>)
        ensures
            match self@ {
                SpecJavaType::Array(e) => match *e {
                    SpecJavaType::Instance(name) => r matches Some(n) && n@ == name,
                    _ => r is None,
                },
                _ => r is None,
            },
    {
        proof {
            reveal_with_fuel(type_view, 2);
        }
        match self {
            JavaType::Array(elem) => match &**elem {
                JavaType::Instance(name) => Some(name.as_str()),
                _ => None,
            },
            _ => None,
        }
    }

    pub fn is_primitive_array(&self) -> (r: bool)
        ensures
            r == (self@ matches SpecJavaType::Array(e) && *e is Primitive),
    {
        proof {
            reveal_with_fuel(type_view, 2);
        }
        match self {
            JavaType::Array(elem) => match &**elem {
                JavaType::Primitive(_) => true,
                _ => false,
            },
            _ => false,
        }
    }

    /// The default value of a field of this type: zero, or `null` for a reference type.
    pub fn get_default_value(&self) -> (r: Value)
        ensures
            r == type_default(self@),
    {
        match self {
            JavaType::Primitive(prim) => prim.get_default_value(),
            _ => Value::Null,
        }
    }

    pub fn is_compatible_with(&self, value: &Value) -> (r: bool)
        ensures
            r == type_accepts(self@, *value),
    {
        match (self, value) {
            (JavaType::Primitive(prim), val) => prim.is_compatible_with(val),
            (JavaType::Instance(_), Value::Ref(_) | Value::Null) => true,
            (JavaType::Array(_), Value::Ref(_) | Value::Null) => true,
            (JavaType::GenericInstance(_), Value::Ref(_) | Value::Null) => true,
            (JavaType::TypeVar(_), Value::Ref(_) | Value::Null) => true,
            _ => false,
        }
    }
}

impl JavaType {
    /// Reads one field type from `it`.
    /// `V` is refused. On success exactly the characters of the type have been read.
    pub fn try_recursive(it: &mut CharStream) -> (r: Result<JavaType, TypeDescriptorErr>)
        ensures
            parsed_as(r, parse_type(old(it)@), final(it)@),
            final(it)@ == type_stop(old(it)@),
        decreases old(it)@.len(), 0nat,
    {
        let ghost s = it@;
        let c = match it.peek() {
            Some(c) => c,
            None => {
                return Err(TypeDescriptorErr::UnexpectedEnd);
            },
        };
        if c == 'V' {
            return Err(TypeDescriptorErr::InvalidType('V'));
        }
        if let Ok(prim) = PrimitiveType::try_from(c) {
            it.next();
            return Ok(JavaType::Primitive(prim));
        }
        if c == '[' {
            it.next();
            let elem = JavaType::try_recursive(it)?;
            return Ok(JavaType::Array(Box::new(elem)));
        } else if c == 'L' {
            it.next();
            let mut name = String::new();
            let mut generic = false;
            let mut depth: i128 = 0;
            let ghost mut i: int = 1;
            proof {
                lemma_scan_class_body_bounds(s, 1, 0, false);
            }
            loop
                invariant_except_break
                    old(it)@ == s,
                    s[0] == 'L',
                    s.len() <= usize::MAX,
                    1 <= i <= s.len(),
                    it@ == s.skip(i),
                    name@ == s.subrange(1, i),
                    -i <= depth <= i,
                    scan_class_body(s, 1, 0, false) == scan_class_body(s, i, depth as int, generic),
                    scan_stop(s, 1, 0) == scan_stop(s, i, depth as int),
                ensures
                    scan_class_body(s, 1, 0, false) == Ok::<(int, bool), TypeDescriptorErr>(
                        (i - 1, generic),
                    ),
                    it@ == s.skip(i),
                    name@ == s.subrange(1, i - 1),
                decreases s.len() - i,
            {
                let ch = match it.next() {
                    Some(ch) => ch,
                    None => {
                        return Err(TypeDescriptorErr::UnexpectedEnd);
                    },
                };
                if ch == '<' {
                    generic = true;
                    depth = depth + 1;
                    push_char(&mut name, ch);
                } else if ch == '>' {
                    depth = depth - 1;
                    push_char(&mut name, ch);
                    if depth == 0 {
                        match it.peek() {
                            Some('.') | Some(';') => {},
                            Some(c) => {
                                return Err(TypeDescriptorErr::InvalidType(c));
                            },
                            None => {
                                return Err(TypeDescriptorErr::UnexpectedEnd);
                            },
                        }
                    }
                } else if ch == '.' {
                    generic = true;
                    push_char(&mut name, ch);
                } else if ch == ';' {
                    if depth == 0 {
                        proof {
                            i = i + 1;
                        }
                        break ;
                    }
                    push_char(&mut name, ch);
                } else {
                    push_char(&mut name, ch);
                }
                proof {
                    i = i + 1;
                    assert(name@ =~= s.subrange(1, i));
                }
            }
            if generic {
                let sig = Self::parse_class_signature(&name)?;
                Ok(JavaType::GenericInstance(sig))
            } else {
                Ok(JavaType::Instance(name))
            }
        } else if c == 'T' {
            it.next();
            let mut name = String::new();
            let ghost mut i: int = 1;
            proof {
                lemma_find_semicolon_bounds(s, 1);
            }
            loop
                invariant_except_break
                    old(it)@ == s,
                    s[0] == 'T',
                    1 <= i <= s.len(),
                    it@ == s.skip(i),
                    name@ == s.subrange(1, i),
                    find_semicolon(s, 1) == find_semicolon(s, i),
                ensures
                    find_semicolon(s, 1) == Some(i - 1),
                    it@ == s.skip(i),
                    name@ == s.subrange(1, i - 1),
                decreases s.len() - i,
            {
                let ch = match it.next() {
                    Some(ch) => ch,
                    None => {
                        return Err(TypeDescriptorErr::UnexpectedEnd);
                    },
                };
                proof {
                    i = i + 1;
                }
                if ch == ';' {
                    break ;
                }
                push_char(&mut name, ch);
                assert(name@ =~= s.subrange(1, i));
            }
            Ok(JavaType::TypeVar(name))
        } else {
            Err(TypeDescriptorErr::InvalidType(c))
        }
    }

    /// Splits the name of a generic class type into its segments and type arguments.
    fn parse_class_signature(s: &String) -> (r: Result<ClassSignature, TypeDescriptorErr>)
        ensures
            match parse_segments(s@) {
                Ok(segs) => if segs.len() == 0 {
                    r == Err::<ClassSignature, TypeDescriptorErr>(TypeDescriptorErr::UnexpectedEnd)
                } else {
                    r matches Ok(sig) && sig@ == SpecClassSig {
                        first: segs[0],
                        suffix: segs.drop_first(),
                    }
                },
                Err(e) => r == Err::<ClassSignature, TypeDescriptorErr>(e),
            },
        decreases s@.len(), 1nat,
    {
        let mut it = CharStream::new(s.as_str());
        let mut segments: Vec<ClassSignatureSegment> = Vec::new();
        loop
            invariant_except_break
                it@.len() <= s@.len(),
                parse_segments(s@) == after_segments(segments_view(segments@), parse_segments(it@)),
            ensures
                parse_segments(s@) == Ok::<Seq<SpecSegment>, TypeDescriptorErr>(
                    segments_view(segments@),
                ),
            decreases it@.len(),
        {
            let ghost cur = it@;
            let ghost done = segments_view(segments@);
            let mut seg_name = String::new();
            let ghost mut j: int = 0;
            proof {
                lemma_segment_name_end_bounds(cur, 0);
            }
            loop
                invariant_except_break
                    0 <= j <= segment_name_end(cur, 0),
                    segment_name_end(cur, 0) == segment_name_end(cur, j),
                    it@ == cur.skip(j),
                    seg_name@ == cur.take(j),
                ensures
                    j == segment_name_end(cur, 0),
                    it@ == cur.skip(j),
                    seg_name@ == cur.take(j),
                decreases cur.len() - j,
            {
                match it.peek() {
                    Some(ch) => {
                        if ch == '<' || ch == '.' {
                            break ;
                        }
                        push_char(&mut seg_name, ch);
                        it.next();
                        proof {
                            lemma_segment_name_end_bounds(cur, j + 1);
                            j = j + 1;
                            assert(seg_name@ =~= cur.take(j));
                        }
                    },
                    None => {
                        break ;
                    },
                }
            }
            let ghost k = j;
            let mut args: Vec<TypeArg> = Vec::new();
            if it.peek() == Some('<') {
                it.next();
                let ghost a0 = it@;
                assert(a0 =~= cur.skip(k).drop_first());
                loop
                    invariant_except_break
                        it@.len() <= a0.len(),
                        a0.len() < cur.len(),
                        cur.len() <= s@.len(),
                        a0 == cur.skip(k).drop_first(),
                        k == segment_name_end(cur, 0),
                        0 <= k < cur.len(),
                        cur[k] == '<',
                        seg_name@ == cur.take(k),
                        done == segments_view(segments@),
                        parse_segments(s@) == after_segments(done, parse_segments(cur)),
                        parse_args(a0) == after_args(type_args_view(args@), parse_args(it@)),
                    ensures
                        parse_args(a0) == Ok::<(Seq<SpecTypeArg>, Seq<char>), TypeDescriptorErr>(
                            (type_args_view(args@), it@),
                        ),
                        seg_name@ == cur.take(k),
                        done == segments_view(segments@),
                    decreases it@.len(),
                {
                    let ghost t0 = it@;
                    let ghost before = args@;
                    proof {
                        lemma_parse_shortens(t0);
                    }
                    match it.peek() {
                        Some('>') => {
                            it.next();
                            assert(type_args_view(args@) + Seq::empty() =~= type_args_view(args@));
                            break ;
                        },
                        Some('*') => {
                            it.next();
                            args.push(TypeArg::Any);
                            proof {
                                lemma_type_args_view_push(before, TypeArg::Any);
                                lemma_after_args_step(
                                    type_args_view(before),
                                    SpecTypeArg::Any,
                                    parse_args(t0.drop_first()),
                                );
                            }
                        },
                        Some('+') => {
                            it.next();
                            proof {
                                lemma_parse_shortens(t0.drop_first());
                            }
                            let ty = JavaType::try_recursive(&mut it)?;
                            let arg = TypeArg::Extends(Box::new(ty));
                            args.push(arg);
                            proof {
                                lemma_type_args_view_push(before, arg);
                                lemma_after_args_step(type_args_view(before), arg@, parse_args(it@));
                            }
                        },
                        Some('-') => {
                            it.next();
                            proof {
                                lemma_parse_shortens(t0.drop_first());
                            }
                            let ty = JavaType::try_recursive(&mut it)?;
                            let arg = TypeArg::Super(Box::new(ty));
                            args.push(arg);
                            proof {
                                lemma_type_args_view_push(before, arg);
                                lemma_after_args_step(type_args_view(before), arg@, parse_args(it@));
                            }
                        },
                        Some(_) => {
                            let ty = JavaType::try_recursive(&mut it)?;
                            let arg = TypeArg::Exact(Box::new(ty));
                            args.push(arg);
                            proof {
                                lemma_type_args_view_push(before, arg);
                                lemma_after_args_step(type_args_view(before), arg@, parse_args(it@));
                            }
                        },
                        None => {
                            return Err(TypeDescriptorErr::UnexpectedEnd);
                        },
                    }
                }
                proof {
                    lemma_parse_shortens(a0);
                }
            } else {
                assert(type_args_view(args@) =~= Seq::<SpecTypeArg>::empty());
            }
            let seg = ClassSignatureSegment { name: seg_name, args };
            let ghost after = it@;
            assert(seg@ == SpecSegment { name: cur.take(k), args: type_args_view(args@) });
            assert(after.len() <= cur.len());
            assert(parse_segments(cur) == (if after.len() > 0 && after[0] == '.' {
                after_segments(seq![seg@], parse_segments(after.drop_first()))
            } else {
                Ok(seq![seg@])
            }));
            let ghost prev = segments@;
            segments.push(seg);
            proof {
                lemma_segments_view_push(prev, seg);
                assert(segments@ == prev.push(seg));
            }
            if it.peek() == Some('.') {
                it.next();
                proof {
                    lemma_after_segments_step(done, seg@, parse_segments(after.drop_first()));
                }
            } else {
                assert(done.push(seg@) =~= done + seq![seg@]);
                break ;
            }
        }
        proof {
            lemma_segments_view(segments@);
        }
        if segments.len() == 0 {
            return Err(TypeDescriptorErr::UnexpectedEnd);
        }
        let ghost all = segments@;
        let first = segments.remove(0);
        proof {
            lemma_segments_view(segments@);
            assert(segments_view(segments@) =~= segments_view(all).drop_first());
        }
        Ok(ClassSignature { first, suffix: segments })
    }
}

impl ReturnType {
    /// Reads one return type from `it`: `V` for void, or a field type.
    pub fn try_recursive(it: &mut CharStream) -> (r: Result<ReturnType, TypeDescriptorErr>)
        ensures
            match parse_return_type(old(it)@) {
                Ok((t, rest)) => r matches Ok(v) && v@ == t && final(it)@ == rest,
                Err(e) => r == Err::<ReturnType, TypeDescriptorErr>(e),
            },
            final(it)@ == return_type_stop(old(it)@),
    {
        let c = match it.peek() {
            Some(c) => c,
            None => {
                return Err(TypeDescriptorErr::UnexpectedEnd);
            },
        };
        if c == 'V' {
            it.next();
            return Ok(ReturnType::Void);
        }
        let java_type = JavaType::try_recursive(it)?;
        Ok(ReturnType::Type(java_type))
    }
}

impl ReturnType {
    /// The default value of a variable of this type; void has none.
    pub fn get_default_value(&self) -> (r: Value)
        requires
            !(self is Void),
        ensures
            self@ matches SpecReturnType::Type(t) && r == type_default(t),
    {
        match self {
            ReturnType::Void => Value::Null,
            ReturnType::Type(java_type) => java_type.get_default_value(),
        }
    }

    /// Whether a value can be returned from a method of this return type; none from void.
    pub fn is_compatible_with(&self, value: &Value) -> (r: bool)
        ensures
            r == match self@ {
                SpecReturnType::Void => false,
                SpecReturnType::Type(t) => type_accepts(t, *value),
            },
    {
        match self {
            ReturnType::Void => false,
            ReturnType::Type(java_type) => java_type.is_compatible_with(value),
        }
    }
}

impl TryFrom<char> for PrimitiveType {
    type Error = ();

    /// The primitive type that a descriptor character stands for.
    fn try_from(value: char) -> (r: Result<Self, Self::Error>) {
        match value {
            'B' => Ok(PrimitiveType::Byte),
            'C' => Ok(PrimitiveType::Char),
            'D' => Ok(PrimitiveType::Double),
            'F' => Ok(PrimitiveType::Float),
            'I' => Ok(PrimitiveType::Int),
            'J' => Ok(PrimitiveType::Long),
            'S' => Ok(PrimitiveType::Short),
            'Z' => Ok(PrimitiveType::Boolean),
            _ => Err(()),
        }
    }
}

impl vstd::std_specs::convert::TryFromSpecImpl<char> for PrimitiveType {
    open spec fn obeys_try_from_spec() -> bool {
        true
    }

    open spec fn try_from_spec(value: char) -> Result<Self, Self::Error> {
        match primitive_of(value) {
            Some(p) => Ok(p),
            None => Err(()),
        }
    }
}

impl<'a> TryFrom<&'a str> for JavaType {
    type Error = TypeDescriptorErr;

    /// Reads one field type from the start of `value`; what follows it is not looked at.
    fn try_from(value: &'a str) -> (r: Result<Self, Self::Error>)
        ensures
            match parse_type(value@) {
                Ok((t, rest)) => r matches Ok(v) && v@ == t,
                Err(e) => r == Err::<JavaType, TypeDescriptorErr>(e),
            },
    {
        let mut it = CharStream::new(value);
        JavaType::try_recursive(&mut it)
    }
}

/// A `JavaType` holds strings, which no spec function can build from characters, so the
/// result of `try_from` is described by its own `ensures`, over the model of the type.
impl<'a> vstd::std_specs::convert::TryFromSpecImpl<&'a str> for JavaType {
    open spec fn obeys_try_from_spec() -> bool {
        false
    }

    open spec fn try_from_spec(value: &'a str) -> Result<Self, Self::Error> {
        arbitrary()
    }
}

fn clone_type(t: &JavaType) -> (r: JavaType)
    ensures
        r@ == t@,
    decreases t,
{
    match t {
        JavaType::Primitive(p) => JavaType::Primitive(*p),
        JavaType::Instance(n) => JavaType::Instance(n.clone()),
        JavaType::GenericInstance(sig) => JavaType::GenericInstance(clone_class_signature(sig)),
        JavaType::TypeVar(n) => JavaType::TypeVar(n.clone()),
        JavaType::Array(e) => JavaType::Array(Box::new(clone_type(e))),
    }
}

fn clone_type_arg(a: &TypeArg) -> (r: TypeArg)
    ensures
        r@ == a@,
    decreases a,
{
    match a {
        TypeArg::Any => TypeArg::Any,
        TypeArg::Extends(t) => TypeArg::Extends(Box::new(clone_type(t))),
        TypeArg::Super(t) => TypeArg::Super(Box::new(clone_type(t))),
        TypeArg::Exact(t) => TypeArg::Exact(Box::new(clone_type(t))),
    }
}

fn clone_segment(seg: &ClassSignatureSegment) -> (r: ClassSignatureSegment)
    ensures
        r@ == seg@,
    decreases seg,
{
    let mut args: Vec<TypeArg> = Vec::new();
    let mut i: usize = 0;
    while i < seg.args.len()
        invariant
            i <= seg.args.len(),
            type_args_view(args@) == type_args_view(seg.args@.take(i as int)),
        decreases seg.args.len() - i,
    {
        let a = clone_type_arg(&seg.args[i]);
        proof {
            lemma_type_args_view_push(args@, a);
            lemma_type_args_view_push(seg.args@.take(i as int), seg.args@[i as int]);
            assert(seg.args@.take(i as int).push(seg.args@[i as int]) =~= seg.args@.take(i + 1));
        }
        args.push(a);
        i = i + 1;
    }
    assert(seg.args@.take(i as int) =~= seg.args@);
    ClassSignatureSegment { name: seg.name.clone(), args }
}

fn clone_class_signature(sig: &ClassSignature) -> (r: ClassSignature)
    ensures
        r@ == sig@,
    decreases sig,
{
    let first = clone_segment(&sig.first);
    let mut suffix: Vec<ClassSignatureSegment> = Vec::new();
    let mut i: usize = 0;
    while i < sig.suffix.len()
        invariant
            i <= sig.suffix.len(),
            segments_view(suffix@) == segments_view(sig.suffix@.take(i as int)),
        decreases sig.suffix.len() - i,
    {
        let seg = clone_segment(&sig.suffix[i]);
        proof {
            lemma_segments_view_push(suffix@, seg);
            lemma_segments_view_push(sig.suffix@.take(i as int), sig.suffix@[i as int]);
            assert(sig.suffix@.take(i as int).push(sig.suffix@[i as int]) =~= sig.suffix@.take(i + 1));
        }
        suffix.push(seg);
        i = i + 1;
    }
    assert(sig.suffix@.take(i as int) =~= sig.suffix@);
    ClassSignature { first, suffix }
}

impl Clone for JavaType {
    fn clone(&self) -> (r: Self)
        ensures
            r@ == self@,
    {
        clone_type(self)
    }
}

impl Clone for TypeArg {
    fn clone(&self) -> (r: Self)
        ensures
            r@ == self@,
    {
        clone_type_arg(self)
    }
}

impl Clone for ClassSignatureSegment {
    fn clone(&self) -> (r: Self)
        ensures
            r@ == self@,
    {
        clone_segment(self)
    }
}

impl Clone for ClassSignature {
    fn clone(&self) -> (r: Self)
        ensures
            r@ == self@,
    {
        clone_class_signature(self)
    }
}

impl Clone for ReturnType {
    fn clone(&self) -> (r: Self)
        ensures
            r@ == self@,
    {
        match self {
            ReturnType::Void => ReturnType::Void,
            ReturnType::Type(t) => ReturnType::Type(clone_type(t)),
        }
    }
}

proof fn lemma_after_args_step(
    done: Seq<SpecTypeArg>,
    arg: SpecTypeArg,
    r: Result<(Seq<SpecTypeArg>, Seq<char>), TypeDescriptorErr>,
)
    ensures
        after_args(
            done,
            match r {
                Ok((args, after)) => Ok((seq![arg] + args, after)),
                Err(e) => Err(e),
            },
        ) == after_args(done.push(arg), r),
{
    if let Ok((args, after)) = r {
        assert(done + (seq![arg] + args) =~= done.push(arg) + args);
    }
}

proof fn lemma_after_segments_step(
    done: Seq<SpecSegment>,
    seg: SpecSegment,
    r: Result<Seq<SpecSegment>, TypeDescriptorErr>,
)
    ensures
        after_segments(
            done,
            match r {
                Ok(segs) => Ok(seq![seg] + segs),
                Err(e) => Err(e),
            },
        ) == after_segments(done.push(seg), r),
{
    if let Ok(segs) = r {
        assert(done + (seq![seg] + segs) =~= done.push(seg) + segs);
    }
}

} // verus!
