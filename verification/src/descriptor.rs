use vstd::prelude::*;

use crate::chars::CharStream;
use crate::error::{MethodDescriptorErr, SpecMethodDescriptorErr, TypeDescriptorErr};
use crate::grammar::{
    descriptor_of, is_descriptor_type, lemma_descriptor_round_trip, lemma_parse_shortens,
    parse_return_type, parse_type,
};
use crate::jtype::{JavaType, ReturnType, SpecJavaType, SpecReturnType};
use crate::text::{dotted, join, return_text, type_texts, write_dotted, write_types_joined};

verus! {

/// Field descriptor: a field type, which cannot be void.
pub type FieldDescriptor = JavaType;

/// Method descriptor: the parameter types and the return type of a method.
#[derive(Debug, PartialEq, Eq)]
pub struct MethodDescriptor {
    pub params: Vec<JavaType>,
    pub ret: ReturnType,
}

/// The model of a method descriptor.
pub struct SpecMethodDescriptor {
    pub params: Seq<SpecJavaType>,
    pub ret: SpecReturnType,
}

/// The models of a sequence of types.
pub open spec fn types_view(s: Seq<JavaType>) -> Seq<SpecJavaType> {
    s.map_values(|t: JavaType| t@)
}

impl View for MethodDescriptor {
    type V = SpecMethodDescriptor;

    open spec fn view(&self) -> SpecMethodDescriptor {
        SpecMethodDescriptor { params: types_view(self.params@), ret: self.ret@ }
    }
}

/// The parameter types of the descriptor `desc`, from the remaining input `s` up to and
/// including the `)` that closes them.
pub open spec fn parse_params(desc: Seq<char>, s: Seq<char>) -> Result<
    (Seq<SpecJavaType>, Seq<char>),
    SpecMethodDescriptorErr,
>
    decreases s.len(),
{
    if s.len() == 0 {
        Err(SpecMethodDescriptorErr::MissingClosingParenthesis(desc))
    } else if s[0] == ')' {
        Ok((Seq::empty(), s.drop_first()))
    } else {
        match parse_type(s) {
            Ok((t, rest)) => {
                proof {
                    lemma_parse_shortens(s);
                }
                match parse_params(desc, rest) {
                    Ok((ts, after)) => Ok((seq![t] + ts, after)),
                    Err(e) => Err(e),
                }
            },
            Err(e) => Err(SpecMethodDescriptorErr::Type(desc, e)),
        }
    }
}

/// A whole method descriptor `(` parameter types `)` return type, with nothing after it.
pub open spec fn parse_method_descriptor(desc: Seq<char>) -> Result<
    SpecMethodDescriptor,
    SpecMethodDescriptorErr,
> {
    if desc.len() == 0 || desc[0] != '(' {
        Err(SpecMethodDescriptorErr::ShouldStartWithParentheses(desc))
    } else {
        match parse_params(desc, desc.drop_first()) {
            Ok((params, rest)) => match parse_return_type(rest) {
                Ok((ret, after)) => if after.len() == 0 {
                    Ok(SpecMethodDescriptor { params, ret })
                } else {
                    Err(SpecMethodDescriptorErr::TrailingCharacters)
                },
                Err(e) => Err(SpecMethodDescriptorErr::Type(desc, e)),
            },
            Err(e) => Err(e),
        }
    }
}

/// What a parse of parameters gives when `done` have already been read.
pub open spec fn after_params(
    done: Seq<SpecJavaType>,
    r: Result<(Seq<SpecJavaType>, Seq<char>), SpecMethodDescriptorErr>,
) -> Result<(Seq<SpecJavaType>, Seq<char>), SpecMethodDescriptorErr> {
    match r {
        Ok((ts, after)) => Ok((done + ts, after)),
        Err(e) => Err(e),
    }
}

/// The descriptors of a sequence of field types, one after the other.
pub open spec fn params_descriptor(ps: Seq<SpecJavaType>) -> Seq<char>
    decreases ps.len(),
{
    if ps.len() == 0 {
        Seq::empty()
    } else {
        descriptor_of(ps[0]) + params_descriptor(ps.drop_first())
    }
}

/// The descriptor of a return type.
pub open spec fn return_descriptor(ret: SpecReturnType) -> Seq<char> {
    match ret {
        SpecReturnType::Void => seq!['V'],
        SpecReturnType::Type(t) => descriptor_of(t),
    }
}

/// The method descriptor of a method with these parameter and return types.
pub open spec fn method_descriptor_of(md: SpecMethodDescriptor) -> Seq<char> {
    seq!['('] + params_descriptor(md.params) + seq![')'] + return_descriptor(md.ret)
}

/// Whether every type of a method is written by a field descriptor.
pub open spec fn is_descriptor_method(md: SpecMethodDescriptor) -> bool {
    &&& forall|i: int| 0 <= i < md.params.len() ==> is_descriptor_type(#[trigger] md.params[i])
    &&& md.ret matches SpecReturnType::Type(t) ==> is_descriptor_type(t)
}

proof fn lemma_descriptor_first_char(t: SpecJavaType)
    requires
        is_descriptor_type(t),
    ensures
        descriptor_of(t).len() > 0,
        descriptor_of(t)[0] != ')',
        descriptor_of(t)[0] != 'V',
{
    match t {
        SpecJavaType::Primitive(p) => {},
        SpecJavaType::Instance(n) => {},
        SpecJavaType::Array(e) => {},
        _ => {},
    }
}

proof fn lemma_params_round_trip(desc: Seq<char>, ps: Seq<SpecJavaType>, rest: Seq<char>)
    requires
        forall|i: int| 0 <= i < ps.len() ==> is_descriptor_type(#[trigger] ps[i]),
    ensures
        parse_params(desc, params_descriptor(ps) + seq![')'] + rest) == Ok::<
            (Seq<SpecJavaType>, Seq<char>),
            SpecMethodDescriptorErr,
        >((ps, rest)),
    decreases ps.len(),
{
    let s = params_descriptor(ps) + seq![')'] + rest;
    if ps.len() == 0 {
        assert(s[0] == ')');
        assert(s.drop_first() =~= rest);
        assert(ps =~= Seq::<SpecJavaType>::empty());
    } else {
        let tail = params_descriptor(ps.drop_first()) + seq![')'] + rest;
        assert(s =~= descriptor_of(ps[0]) + tail);
        assert(is_descriptor_type(ps[0]));
        lemma_descriptor_first_char(ps[0]);
        lemma_descriptor_round_trip(ps[0], tail);
        assert forall|i: int| 0 <= i < ps.drop_first().len() implies is_descriptor_type(
            #[trigger] ps.drop_first()[i],
        ) by {
            assert(ps.drop_first()[i] == ps[i + 1]);
        }
        lemma_params_round_trip(desc, ps.drop_first(), rest);
        assert(seq![ps[0]] + ps.drop_first() =~= ps);
        assert(s[0] != ')');
        assert(parse_type(s) == Ok::<(SpecJavaType, Seq<char>), TypeDescriptorErr>((ps[0], tail)));
        assert(parse_params(desc, s) == Ok::<(Seq<SpecJavaType>, Seq<char>), SpecMethodDescriptorErr>((ps, rest)));
    }
}

/// Reading the method descriptor of a method whose types are all written by field
/// descriptors gives back those types.
pub proof fn lemma_method_descriptor_round_trip(md: SpecMethodDescriptor)
    requires
        is_descriptor_method(md),
    ensures
        parse_method_descriptor(method_descriptor_of(md)) == Ok::<
            SpecMethodDescriptor,
            SpecMethodDescriptorErr,
        >(md),
{
    let desc = method_descriptor_of(md);
    let r = return_descriptor(md.ret);
    assert(desc.drop_first() =~= params_descriptor(md.params) + seq![')'] + r);
    lemma_params_round_trip(desc, md.params, r);
    match md.ret {
        SpecReturnType::Void => {
            assert(r.drop_first() =~= Seq::<char>::empty());
        },
        SpecReturnType::Type(t) => {
            lemma_descriptor_first_char(t);
            lemma_descriptor_round_trip(t, Seq::empty());
            assert(r + Seq::<char>::empty() =~= r);
        },
    }
}

impl MethodDescriptor {
    /// The method as Java source writes it: return type, class name with `.` for `/`,
    /// `.`, method name, and the parameter types in parentheses, e.g.
    /// `void java.lang.Object.wait(long, int)`.
    pub fn to_java_signature(&self, class_name: &str, method_name: &str) -> (r: String)
        ensures
            r@ == return_text(self.ret@) + " "@ + dotted(class_name@) + "."@ + method_name@ + "("@
                + join(type_texts(types_view(self.params@)), ", "@) + ")"@,
    {
        let mut buffer = self.ret.to_string();
        buffer.append(" ");
        write_dotted(&mut buffer, class_name);
        buffer.append(".");
        buffer.append(method_name);
        buffer.append("(");
        write_types_joined(&mut buffer, &self.params, ", ");
        buffer.append(")");
        buffer
    }
}

impl<'a> TryFrom<&'a str> for MethodDescriptor {
    type Error = MethodDescriptorErr;

    /// Reads a method descriptor, which must make up the whole of `desc`.
    fn try_from(desc: &'a str) -> (r: Result<Self, Self::Error>)
        ensures
            match parse_method_descriptor(desc@) {
                Ok(md) => r matches Ok(v) && v@ == md,
                Err(e) => r matches Err(x) && x@ == e,
            },
    {
        let mut chars = CharStream::new(desc);
        if chars.next() != Some('(') {
            return Err(MethodDescriptorErr::ShouldStartWithParentheses(desc.to_owned()));
        }
        let ghost p0 = chars@;
        let mut params: Vec<JavaType> = Vec::new();
        loop
            invariant_except_break
                desc@.len() > 0,
                desc@[0] == '(',
                p0 == desc@.drop_first(),
                parse_params(desc@, p0) == after_params(types_view(params@), parse_params(desc@, chars@)),
            ensures
                parse_params(desc@, p0) == Ok::<(Seq<SpecJavaType>, Seq<char>), SpecMethodDescriptorErr>(
                    (types_view(params@), chars@),
                ),
            decreases chars@.len(),
        {
            let ghost s = chars@;
            let ghost before = params@;
            match chars.peek() {
                Some(')') => {
                    chars.next();
                    assert(types_view(params@) + Seq::empty() =~= types_view(params@));
                    break ;
                },
                Some(_) => {
                    proof {
                        lemma_parse_shortens(s);
                    }
                    match JavaType::try_recursive(&mut chars) {
                        Ok(t) => {
                            params.push(t);
                            proof {
                                assert(types_view(params@) =~= types_view(before).push(t@));
                                if let Ok((ts, after)) = parse_params(desc@, chars@) {
                                    assert(types_view(before) + (seq![t@] + ts) =~= types_view(
                                        params@,
                                    ) + ts);
                                }
                            }
                        },
                        Err(e) => {
                            return Err(MethodDescriptorErr::Type(desc.to_owned(), e));
                        },
                    }
                },
                None => {
                    return Err(MethodDescriptorErr::MissingClosingParenthesis(desc.to_owned()));
                },
            }
        }
        let ret = match ReturnType::try_recursive(&mut chars) {
            Ok(ret) => ret,
            Err(e) => {
                return Err(MethodDescriptorErr::Type(desc.to_owned(), e));
            },
        };
        if chars.next().is_some() {
            return Err(MethodDescriptorErr::TrailingCharacters);
        }
        Ok(MethodDescriptor { params, ret })
    }
}

/// A `MethodDescriptor` holds strings, which no spec function can build from characters,
/// so the result of `try_from` is described by its own `ensures`, over the model.
impl<'a> vstd::std_specs::convert::TryFromSpecImpl<&'a str> for MethodDescriptor {
    open spec fn obeys_try_from_spec() -> bool {
        false
    }

    open spec fn try_from_spec(value: &'a str) -> Result<Self, Self::Error> {
        arbitrary()
    }
}

} // verus!
