//! Generic signatures of methods and classes.
use vstd::prelude::*;

use crate::chars::{push_char, CharStream};
use crate::descriptor::{parse_method_descriptor, parse_params, types_view};
use crate::error::{SignatureErr, TypeDescriptorErr};
use crate::grammar::{
    is_signature_type, lemma_parse_shortens, lemma_type_signature_round_trip, parse_return_type,
    parse_type, type_signature,
};
use crate::jtype::{JavaType, ReturnType, SpecJavaType, SpecReturnType};
use crate::text::{join, return_text, type_text, type_texts, write_type, write_types_joined};

verus! {

#[derive(Debug, PartialEq, Eq)]
pub struct MethodSignature {
    pub type_params: Vec<FormalTypeParam>,
    pub params: Vec<JavaType>,
    pub ret: ReturnType,
    pub throws: Vec<JavaType>,
}

#[derive(Debug, PartialEq, Eq)]
pub struct ClassSignature {
    pub type_params: Vec<FormalTypeParam>,
    pub super_class: JavaType,
    pub interfaces: Vec<JavaType>,
    pub is_interface: bool,
}

/// A type parameter `T` with its bounds: `T:Ljava/lang/Object;:Ljava/lang/Runnable;`.
#[derive(Debug, PartialEq, Eq)]
pub struct FormalTypeParam {
    pub name: String,
    pub class_bound: Option<JavaType>,
    pub interface_bounds: Vec<JavaType>,
}

// ----- Models -----

pub struct SpecFormalTypeParam {
    pub name: Seq<char>,
    pub class_bound: Option<SpecJavaType>,
    pub interface_bounds: Seq<SpecJavaType>,
}

pub struct SpecMethodSignature {
    pub type_params: Seq<SpecFormalTypeParam>,
    pub params: Seq<SpecJavaType>,
    pub ret: SpecReturnType,
    pub throws: Seq<SpecJavaType>,
}

pub struct SpecClassSignature {
    pub type_params: Seq<SpecFormalTypeParam>,
    pub super_class: SpecJavaType,
    pub interfaces: Seq<SpecJavaType>,
    pub is_interface: bool,
}

pub open spec fn optional_type_view(t: Option<JavaType>) -> Option<SpecJavaType> {
    match t {
        Some(t) => Some(t@),
        None => None,
    }
}

impl View for FormalTypeParam {
    type V = SpecFormalTypeParam;

    open spec fn view(&self) -> SpecFormalTypeParam {
        SpecFormalTypeParam {
            name: self.name@,
            class_bound: optional_type_view(self.class_bound),
            interface_bounds: types_view(self.interface_bounds@),
        }
    }
}

pub open spec fn type_params_view(s: Seq<FormalTypeParam>) -> Seq<SpecFormalTypeParam> {
    s.map_values(|p: FormalTypeParam| p@)
}

impl View for MethodSignature {
    type V = SpecMethodSignature;

    open spec fn view(&self) -> SpecMethodSignature {
        SpecMethodSignature {
            type_params: type_params_view(self.type_params@),
            params: types_view(self.params@),
            ret: self.ret@,
            throws: types_view(self.throws@),
        }
    }
}

impl View for ClassSignature {
    type V = SpecClassSignature;

    open spec fn view(&self) -> SpecClassSignature {
        SpecClassSignature {
            type_params: type_params_view(self.type_params@),
            super_class: self.super_class@,
            interfaces: types_view(self.interfaces@),
            is_interface: self.is_interface,
        }
    }
}

// ----- Grammar -----

/// A parse of a type, with its error as a signature error.
pub open spec fn sig_type(s: Seq<char>) -> Result<(SpecJavaType, Seq<char>), SignatureErr> {
    match parse_type(s) {
        Ok(r) => Ok(r),
        Err(e) => Err(SignatureErr::Type(e)),
    }
}

/// The index of the first `:` or `>` at or after `i`.
pub open spec fn param_name_end(s: Seq<char>, i: int) -> Option<int>
    decreases s.len() - i,
{
    if i < 0 || i >= s.len() {
        None
    } else if s[i] == ':' || s[i] == '>' {
        Some(i)
    } else {
        param_name_end(s, i + 1)
    }
}

pub proof fn lemma_param_name_end_bounds(s: Seq<char>, i: int)
    requires
        0 <= i,
    ensures
        param_name_end(s, i) matches Some(k) ==> i <= k < s.len() && (s[k] == ':' || s[k] == '>')
            && forall|j: int| i <= j < k ==> s[j] != ':' && s[j] != '>',
        param_name_end(s, i) is None ==> forall|j: int| i <= j < s.len() ==> s[j] != ':' && s[j]
            != '>',
    decreases s.len() - i,
{
    if i < s.len() && s[i] != ':' && s[i] != '>' {
        lemma_param_name_end_bounds(s, i + 1);
    }
}

/// Interface bounds, each `:` followed by a type.
pub open spec fn parse_interface_bounds(s: Seq<char>) -> Result<
    (Seq<SpecJavaType>, Seq<char>),
    SignatureErr,
>
    decreases s.len(),
{
    if s.len() > 0 && s[0] == ':' {
        let r = s.drop_first();
        if r.len() > 0 && r[0] == '>' {
            Err(SignatureErr::InvalidBound)
        } else {
            match sig_type(r) {
                Ok((t, rest)) => {
                    proof {
                        lemma_parse_shortens(r);
                    }
                    match parse_interface_bounds(rest) {
                        Ok((ts, after)) => Ok((seq![t] + ts, after)),
                        Err(e) => Err(e),
                    }
                },
                Err(e) => Err(e),
            }
        }
    } else {
        Ok((Seq::empty(), s))
    }
}

pub proof fn lemma_interface_bounds_suffix(s: Seq<char>)
    ensures
        parse_interface_bounds(s) matches Ok((ts, rest)) ==> rest.len() <= s.len(),
    decreases s.len(),
{
    if s.len() > 0 && s[0] == ':' {
        let r = s.drop_first();
        lemma_parse_shortens(r);
        if let Ok((t, rest)) = sig_type(r) {
            lemma_interface_bounds_suffix(rest);
        }
    }
}

/// One formal type parameter: a non-empty name, `:`, an optional class bound, and
/// interface bounds.
pub open spec fn parse_type_param(s: Seq<char>) -> Result<
    (SpecFormalTypeParam, Seq<char>),
    SignatureErr,
> {
    match param_name_end(s, 0) {
        None => Err(SignatureErr::UnexpectedEnd),
        Some(k) => if s[k] == '>' {
            Err(SignatureErr::InvalidIdentifier)
        } else if k == 0 {
            Err(SignatureErr::InvalidIdentifier)
        } else {
            let name = s.take(k);
            let r = s.skip(k + 1);
            let bound = if r.len() == 0 {
                Err(SignatureErr::UnexpectedEnd)
            } else if r[0] == ':' {
                Ok((None, r))
            } else {
                match sig_type(r) {
                    Ok((t, rest)) => Ok((Some(t), rest)),
                    Err(e) => Err(e),
                }
            };
            match bound {
                Ok((class_bound, r2)) => match parse_interface_bounds(r2) {
                    Ok((interface_bounds, rest)) => Ok(
                        (SpecFormalTypeParam { name, class_bound, interface_bounds }, rest),
                    ),
                    Err(e) => Err(e),
                },
                Err(e) => Err(e),
            }
        },
    }
}

pub proof fn lemma_type_param_shortens(s: Seq<char>)
    ensures
        parse_type_param(s) matches Ok((p, rest)) ==> rest.len() < s.len(),
{
    lemma_param_name_end_bounds(s, 0);
    if let Some(k) = param_name_end(s, 0) {
        let r = s.skip(k + 1);
        lemma_parse_shortens(r);
        lemma_interface_bounds_suffix(r);
        if let Ok((t, rest)) = sig_type(r) {
            lemma_interface_bounds_suffix(rest);
        }
    }
}

/// Formal type parameters, from just after `<` up to and including `>`.
pub open spec fn parse_type_params(s: Seq<char>) -> Result<
    (Seq<SpecFormalTypeParam>, Seq<char>),
    SignatureErr,
>
    decreases s.len(),
{
    match parse_type_param(s) {
        Ok((p, rest)) => if rest.len() == 0 {
            Err(SignatureErr::UnexpectedEnd)
        } else if rest[0] == '>' {
            Ok((seq![p], rest.drop_first()))
        } else {
            proof {
                lemma_type_param_shortens(s);
            }
            match parse_type_params(rest) {
                Ok((ps, after)) => Ok((seq![p] + ps, after)),
                Err(e) => Err(e),
            }
        },
        Err(e) => Err(e),
    }
}

/// Type parameters in `<` `>` if the input starts with `<`, or none.
pub open spec fn parse_optional_type_params(s: Seq<char>) -> Result<
    (Seq<SpecFormalTypeParam>, Seq<char>),
    SignatureErr,
> {
    if s.len() > 0 && s[0] == '<' {
        parse_type_params(s.drop_first())
    } else {
        Ok((Seq::empty(), s))
    }
}

/// Parameter types up to and including `)`.
pub open spec fn parse_sig_params(s: Seq<char>) -> Result<
    (Seq<SpecJavaType>, Seq<char>),
    SignatureErr,
>
    decreases s.len(),
{
    if s.len() == 0 {
        Err(SignatureErr::MissingParamsCloseParen)
    } else if s[0] == ')' {
        Ok((Seq::empty(), s.drop_first()))
    } else {
        match sig_type(s) {
            Ok((t, rest)) => {
                proof {
                    lemma_parse_shortens(s);
                }
                match parse_sig_params(rest) {
                    Ok((ts, after)) => Ok((seq![t] + ts, after)),
                    Err(e) => Err(e),
                }
            },
            Err(e) => Err(e),
        }
    }
}

/// Thrown types, each `^` followed by a type.
pub open spec fn parse_throws(s: Seq<char>) -> Result<(Seq<SpecJavaType>, Seq<char>), SignatureErr>
    decreases s.len(),
{
    if s.len() > 0 && s[0] == '^' {
        match sig_type(s.drop_first()) {
            Ok((t, rest)) => {
                proof {
                    lemma_parse_shortens(s.drop_first());
                }
                match parse_throws(rest) {
                    Ok((ts, after)) => Ok((seq![t] + ts, after)),
                    Err(e) => Err(e),
                }
            },
            Err(e) => Err(e),
        }
    } else {
        Ok((Seq::empty(), s))
    }
}

/// A method signature once its thrown types have been read.
pub open spec fn finish_method_signature(
    type_params: Seq<SpecFormalTypeParam>,
    params: Seq<SpecJavaType>,
    ret: SpecReturnType,
    throws: Result<(Seq<SpecJavaType>, Seq<char>), SignatureErr>,
) -> Result<SpecMethodSignature, SignatureErr> {
    match throws {
        Ok((throws, r4)) => if r4.len() == 0 {
            Ok(SpecMethodSignature { type_params, params, ret, throws })
        } else {
            Err(SignatureErr::TrailingCharacters)
        },
        Err(e) => Err(e),
    }
}

/// A whole method signature: optional type parameters, parameter types in parentheses,
/// the return type, and thrown types, with nothing after them.
pub open spec fn parse_method_signature(s: Seq<char>) -> Result<SpecMethodSignature, SignatureErr> {
    match parse_optional_type_params(s) {
        Ok((type_params, r1)) => if r1.len() == 0 || r1[0] != '(' {
            Err(SignatureErr::MissingParamsOpenParen)
        } else {
            match parse_sig_params(r1.drop_first()) {
                Ok((params, r2)) => match parse_return_type(r2) {
                    Ok((ret, r3)) => finish_method_signature(type_params, params, ret, parse_throws(r3)),
                    Err(e) => Err(SignatureErr::Type(e)),
                },
                Err(e) => Err(e),
            }
        },
        Err(e) => Err(e),
    }
}

proof fn lemma_params_agree(desc: Seq<char>, s: Seq<char>)
    ensures
        parse_params(desc, s) matches Ok(r) ==> parse_sig_params(s) == Ok::<
            (Seq<SpecJavaType>, Seq<char>),
            SignatureErr,
        >(r),
    decreases s.len(),
{
    if s.len() > 0 && s[0] != ')' {
        lemma_parse_shortens(s);
        if let Ok((t, rest)) = parse_type(s) {
            lemma_params_agree(desc, rest);
        }
    }
}

/// A method descriptor is a method signature without type parameters and thrown types:
/// read as a signature, it gives the same parameter and return types.
pub proof fn lemma_descriptor_is_signature(s: Seq<char>)
    requires
        parse_method_descriptor(s) is Ok,
    ensures
        parse_method_signature(s) == Ok::<SpecMethodSignature, SignatureErr>(
            SpecMethodSignature {
                type_params: Seq::empty(),
                params: parse_method_descriptor(s)->Ok_0.params,
                ret: parse_method_descriptor(s)->Ok_0.ret,
                throws: Seq::empty(),
            },
        ),
{
    lemma_params_agree(s, s.drop_first());
}

/// A class type (plain or generic) if any input is left; another type is refused.
pub open spec fn spec_parse_class_type(s: Seq<char>) -> Result<
    (Option<SpecJavaType>, Seq<char>),
    SignatureErr,
> {
    if s.len() == 0 {
        Ok((None, s))
    } else {
        match sig_type(s) {
            Ok((t, rest)) => if t is Instance || t is GenericInstance {
                Ok((Some(t), rest))
            } else {
                Err(SignatureErr::InvalidSuperClassType)
            },
            Err(e) => Err(e),
        }
    }
}

/// Class types up to the end of the input.
pub open spec fn parse_interfaces(s: Seq<char>) -> Result<Seq<SpecJavaType>, SignatureErr>
    decreases s.len(),
{
    if s.len() == 0 {
        Ok(Seq::empty())
    } else {
        match spec_parse_class_type(s) {
            Ok((Some(t), rest)) => {
                proof {
                    lemma_parse_shortens(s);
                }
                match parse_interfaces(rest) {
                    Ok(ts) => Ok(seq![t] + ts),
                    Err(e) => Err(e),
                }
            },
            Ok((None, _)) => Err(SignatureErr::UnexpectedEnd),
            Err(e) => Err(e),
        }
    }
}

/// A class signature once its interfaces have been read.
pub open spec fn finish_class_signature(
    type_params: Seq<SpecFormalTypeParam>,
    super_class: SpecJavaType,
    is_interface: bool,
    interfaces: Result<Seq<SpecJavaType>, SignatureErr>,
) -> Result<SpecClassSignature, SignatureErr> {
    match interfaces {
        Ok(interfaces) => Ok(SpecClassSignature { type_params, super_class, interfaces, is_interface }),
        Err(e) => Err(e),
    }
}

/// A whole class signature: optional type parameters, the superclass, and the interfaces.
pub open spec fn parse_class_signature(s: Seq<char>, is_interface: bool) -> Result<
    SpecClassSignature,
    SignatureErr,
> {
    match parse_optional_type_params(s) {
        Ok((type_params, r1)) => match spec_parse_class_type(r1) {
            Ok((Some(super_class), r2)) => finish_class_signature(
                type_params,
                super_class,
                is_interface,
                parse_interfaces(r2),
            ),
            Ok((None, _)) => Err(SignatureErr::MissingSuper),
            Err(e) => Err(e),
        },
        Err(e) => Err(e),
    }
}

/// What a parse of a list gives when `done` has already been read.
pub open spec fn after_list<T, E>(done: Seq<T>, r: Result<(Seq<T>, Seq<char>), E>) -> Result<
    (Seq<T>, Seq<char>),
    E,
> {
    match r {
        Ok((items, after)) => Ok((done + items, after)),
        Err(e) => Err(e),
    }
}

proof fn lemma_after_list_step<T, E>(done: Seq<T>, x: T, r: Result<(Seq<T>, Seq<char>), E>)
    ensures
        after_list(
            done,
            match r {
                Ok((items, after)) => Ok((seq![x] + items, after)),
                Err(e) => Err(e),
            },
        ) == after_list(done.push(x), r),
{
    if let Ok((items, after)) = r {
        assert(done + (seq![x] + items) =~= done.push(x) + items);
    }
}

// ----- Signatures of formal type parameters -----

/// Interface bounds as a signature writes them: each `:` followed by the signature of the bound.
pub open spec fn bounds_signature(ts: Seq<SpecJavaType>) -> Seq<char>
    decreases ts.len(),
{
    if ts.len() == 0 {
        Seq::empty()
    } else {
        seq![':'] + type_signature(ts[0]) + bounds_signature(ts.drop_first())
    }
}

/// A formal type parameter as a signature writes it: the name, `:`, the class bound if
/// there is one, then the interface bounds.
pub open spec fn type_param_signature(p: SpecFormalTypeParam) -> Seq<char> {
    p.name + seq![':'] + match p.class_bound {
        Some(t) => type_signature(t),
        None => Seq::empty(),
    } + bounds_signature(p.interface_bounds)
}

/// Formal type parameters written one after the other.
pub open spec fn type_params_signature(ps: Seq<SpecFormalTypeParam>) -> Seq<char>
    decreases ps.len(),
{
    if ps.len() == 0 {
        Seq::empty()
    } else {
        type_param_signature(ps[0]) + type_params_signature(ps.drop_first())
    }
}

/// Whether a formal type parameter is written by a signature that reads back as it: a
/// non-empty name without `:` or `>`, bounds whose types have signatures, and at least
/// one bound.
pub open spec fn is_signature_type_param(p: SpecFormalTypeParam) -> bool {
    &&& p.name.len() > 0
    &&& forall|i: int| 0 <= i < p.name.len() ==> p.name[i] != ':' && p.name[i] != '>'
    &&& match p.class_bound {
        Some(t) => is_signature_type(t),
        None => p.interface_bounds.len() > 0,
    }
    &&& forall|i: int|
        0 <= i < p.interface_bounds.len() ==> is_signature_type(#[trigger] p.interface_bounds[i])
}

proof fn lemma_param_name_end_over(s: Seq<char>, i: int, k: int)
    requires
        0 <= i <= k < s.len(),
        s[k] == ':',
        forall|j: int| i <= j < k ==> s[j] != ':' && s[j] != '>',
    ensures
        param_name_end(s, i) == Some(k),
    decreases k - i,
{
    if i < k {
        lemma_param_name_end_over(s, i + 1, k);
    }
}

/// Reading interface bounds written as a signature gives back the bounds and leaves what
/// follows, when that does not start with `:`.
pub proof fn lemma_bounds_signature_round_trip(ts: Seq<SpecJavaType>, more: Seq<char>)
    requires
        forall|i: int| 0 <= i < ts.len() ==> is_signature_type(#[trigger] ts[i]),
        more.len() == 0 || more[0] != ':',
    ensures
        parse_interface_bounds(bounds_signature(ts) + more) == Ok::<
            (Seq<SpecJavaType>, Seq<char>),
            SignatureErr,
        >((ts, more)),
    decreases ts.len(),
{
    let s = bounds_signature(ts) + more;
    if ts.len() == 0 {
        assert(s =~= more);
        assert(ts =~= Seq::<SpecJavaType>::empty());
    } else {
        let t = ts[0];
        let tail = ts.drop_first();
        let after = bounds_signature(tail) + more;
        assert(is_signature_type(t));
        assert(s =~= seq![':'] + (type_signature(t) + after));
        let r = s.drop_first();
        assert(r =~= type_signature(t) + after);
        assert(r[0] == type_signature(t)[0]);
        assert(type_signature(t)[0] != '>');
        lemma_type_signature_round_trip(t, after);
        assert forall|i: int| 0 <= i < tail.len() implies is_signature_type(#[trigger] tail[i]) by {
            assert(tail[i] == ts[i + 1]);
        }
        lemma_bounds_signature_round_trip(tail, more);
        assert(seq![t] + tail =~= ts);
    }
}

/// Reading a formal type parameter written as a signature gives back the parameter and
/// leaves what follows, when that does not start with `:`.
pub proof fn lemma_type_param_signature_round_trip(p: SpecFormalTypeParam, more: Seq<char>)
    requires
        is_signature_type_param(p),
        more.len() == 0 || more[0] != ':',
    ensures
        parse_type_param(type_param_signature(p) + more) == Ok::<
            (SpecFormalTypeParam, Seq<char>),
            SignatureErr,
        >((p, more)),
{
    let n = p.name;
    let cb = match p.class_bound {
        Some(t) => type_signature(t),
        None => Seq::empty(),
    };
    let ib = bounds_signature(p.interface_bounds);
    let s = type_param_signature(p) + more;
    let k = n.len() as int;
    assert(s =~= n + (seq![':'] + (cb + (ib + more))));
    assert(s[k] == ':');
    assert forall|j: int| 0 <= j < k implies s[j] != ':' && s[j] != '>' by {
        assert(s[j] == n[j]);
    }
    lemma_param_name_end_over(s, 0, k);
    assert(s.take(k) =~= n);
    let r = s.skip(k + 1);
    assert(r =~= cb + (ib + more));
    lemma_bounds_signature_round_trip(p.interface_bounds, more);
    match p.class_bound {
        Some(t) => {
            assert(r[0] == type_signature(t)[0]);
            assert(type_signature(t)[0] != ':');
            lemma_type_signature_round_trip(t, ib + more);
        },
        None => {
            assert(r =~= ib + more);
            assert(r[0] == ':');
        },
    }
}

/// Formal type parameters written as a signature and closed by `>` read back as the same
/// parameters, however many there are, and leave what follows the `>`; so do they after
/// the `<` that opens them.
pub proof fn lemma_type_params_signature_round_trip(ps: Seq<SpecFormalTypeParam>, more: Seq<char>)
    requires
        ps.len() > 0,
        forall|i: int| 0 <= i < ps.len() ==> is_signature_type_param(#[trigger] ps[i]),
    ensures
        parse_type_params(type_params_signature(ps) + seq!['>'] + more) == Ok::<
            (Seq<SpecFormalTypeParam>, Seq<char>),
            SignatureErr,
        >((ps, more)),
        parse_optional_type_params(seq!['<'] + type_params_signature(ps) + seq!['>'] + more)
            == Ok::<(Seq<SpecFormalTypeParam>, Seq<char>), SignatureErr>((ps, more)),
    decreases ps.len(),
{
    let p = ps[0];
    let tail = ps.drop_first();
    let after = type_params_signature(tail) + seq!['>'] + more;
    let s = type_params_signature(ps) + seq!['>'] + more;
    assert(s =~= type_param_signature(p) + after);
    assert(is_signature_type_param(p));
    if tail.len() > 0 {
        assert(is_signature_type_param(tail[0]) && tail[0] == ps[1]);
        let q = tail[0];
        assert(after =~= q.name + (seq![':'] + (match q.class_bound {
            Some(t) => type_signature(t),
            None => Seq::empty(),
        } + bounds_signature(q.interface_bounds))) + (type_params_signature(tail.drop_first())
            + seq!['>'] + more));
        assert(after[0] == q.name[0]);
        assert forall|i: int| 0 <= i < tail.len() implies is_signature_type_param(
            #[trigger] tail[i],
        ) by {
            assert(tail[i] == ps[i + 1]);
        }
        lemma_type_params_signature_round_trip(tail, more);
        assert(seq![p] + tail =~= ps);
    } else {
        assert(after =~= seq!['>'] + more);
        assert(after.drop_first() =~= more);
        assert(seq![p] =~= ps);
    }
    lemma_type_param_signature_round_trip(p, after);
    let o = seq!['<'] + type_params_signature(ps) + seq!['>'] + more;
    assert(o.drop_first() =~= s);
}

/// Types written one after the other, each by its signature.
pub open spec fn types_signature(ts: Seq<SpecJavaType>) -> Seq<char>
    decreases ts.len(),
{
    if ts.len() == 0 {
        Seq::empty()
    } else {
        type_signature(ts[0]) + types_signature(ts.drop_first())
    }
}

/// Thrown types as a signature writes them: each `^` followed by the signature of the type.
pub open spec fn throws_signature(ts: Seq<SpecJavaType>) -> Seq<char>
    decreases ts.len(),
{
    if ts.len() == 0 {
        Seq::empty()
    } else {
        seq!['^'] + type_signature(ts[0]) + throws_signature(ts.drop_first())
    }
}

/// Formal type parameters in `<` `>`, or nothing when there are none.
pub open spec fn optional_type_params_signature(ps: Seq<SpecFormalTypeParam>) -> Seq<char> {
    if ps.len() == 0 {
        Seq::empty()
    } else {
        seq!['<'] + type_params_signature(ps) + seq!['>']
    }
}

/// The signature of a return type: `V` for void.
pub open spec fn return_signature(r: SpecReturnType) -> Seq<char> {
    match r {
        SpecReturnType::Void => seq!['V'],
        SpecReturnType::Type(t) => type_signature(t),
    }
}

/// The signature of a method: its type parameters, its parameter types in `(` `)`, its
/// return type and its thrown types.
pub open spec fn method_signature_of(m: SpecMethodSignature) -> Seq<char> {
    optional_type_params_signature(m.type_params) + seq!['('] + types_signature(m.params) + seq![
        ')',
    ] + return_signature(m.ret) + throws_signature(m.throws)
}

/// The signature of a class: its type parameters, its superclass and its interfaces.
pub open spec fn class_signature_of(c: SpecClassSignature) -> Seq<char> {
    optional_type_params_signature(c.type_params) + type_signature(c.super_class)
        + types_signature(c.interfaces)
}

/// Whether every type of a list has a signature that reads back as it.
pub open spec fn are_signature_types(ts: Seq<SpecJavaType>) -> bool {
    forall|i: int| 0 <= i < ts.len() ==> is_signature_type(#[trigger] ts[i])
}

/// Whether every type of a list is a class type with a signature that reads back as it.
pub open spec fn are_signature_class_types(ts: Seq<SpecJavaType>) -> bool {
    forall|i: int|
        0 <= i < ts.len() ==> is_signature_type(#[trigger] ts[i]) && (ts[i] is Instance
            || ts[i] is GenericInstance)
}

/// Whether every formal type parameter of a list has a signature that reads back as it.
pub open spec fn are_signature_type_params(ps: Seq<SpecFormalTypeParam>) -> bool {
    forall|i: int| 0 <= i < ps.len() ==> is_signature_type_param(#[trigger] ps[i])
}

/// Whether a method signature is made of parts whose signatures read back as them.
pub open spec fn is_signature_method(m: SpecMethodSignature) -> bool {
    &&& are_signature_type_params(m.type_params)
    &&& are_signature_types(m.params)
    &&& are_signature_types(m.throws)
    &&& match m.ret {
        SpecReturnType::Void => true,
        SpecReturnType::Type(t) => is_signature_type(t),
    }
}

/// Whether a class signature is made of parts whose signatures read back as them, its
/// superclass and interfaces being class types.
pub open spec fn is_signature_class(c: SpecClassSignature) -> bool {
    &&& are_signature_type_params(c.type_params)
    &&& is_signature_type(c.super_class)
    &&& (c.super_class is Instance || c.super_class is GenericInstance)
    &&& are_signature_class_types(c.interfaces)
}

proof fn lemma_params_signature_round_trip(ts: Seq<SpecJavaType>, more: Seq<char>)
    requires
        are_signature_types(ts),
    ensures
        parse_sig_params(types_signature(ts) + seq![')'] + more) == Ok::<
            (Seq<SpecJavaType>, Seq<char>),
            SignatureErr,
        >((ts, more)),
    decreases ts.len(),
{
    let s = types_signature(ts) + seq![')'] + more;
    if ts.len() == 0 {
        assert(s[0] == ')');
        assert(s.drop_first() =~= more);
        assert(ts =~= Seq::<SpecJavaType>::empty());
    } else {
        let t = ts[0];
        let tail = ts.drop_first();
        let after = types_signature(tail) + seq![')'] + more;
        assert(is_signature_type(t));
        assert(s =~= type_signature(t) + after);
        assert(s[0] == type_signature(t)[0]);
        lemma_type_signature_round_trip(t, after);
        assert forall|i: int| 0 <= i < tail.len() implies is_signature_type(#[trigger] tail[i]) by {
            assert(tail[i] == ts[i + 1]);
        }
        lemma_params_signature_round_trip(tail, more);
        assert(seq![t] + tail =~= ts);
    }
}

proof fn lemma_throws_signature_round_trip(ts: Seq<SpecJavaType>)
    requires
        are_signature_types(ts),
    ensures
        parse_throws(throws_signature(ts)) == Ok::<(Seq<SpecJavaType>, Seq<char>), SignatureErr>(
            (ts, Seq::empty()),
        ),
    decreases ts.len(),
{
    let s = throws_signature(ts);
    if ts.len() == 0 {
        assert(ts =~= Seq::<SpecJavaType>::empty());
    } else {
        let t = ts[0];
        let tail = ts.drop_first();
        assert(is_signature_type(t));
        assert(s[0] == '^');
        assert(s.drop_first() =~= type_signature(t) + throws_signature(tail));
        lemma_type_signature_round_trip(t, throws_signature(tail));
        assert forall|i: int| 0 <= i < tail.len() implies is_signature_type(#[trigger] tail[i]) by {
            assert(tail[i] == ts[i + 1]);
        }
        lemma_throws_signature_round_trip(tail);
        assert(seq![t] + tail =~= ts);
    }
}

proof fn lemma_interfaces_signature_round_trip(ts: Seq<SpecJavaType>)
    requires
        are_signature_class_types(ts),
    ensures
        parse_interfaces(types_signature(ts)) == Ok::<Seq<SpecJavaType>, SignatureErr>(ts),
    decreases ts.len(),
{
    let s = types_signature(ts);
    if ts.len() == 0 {
        assert(ts =~= Seq::<SpecJavaType>::empty());
    } else {
        let t = ts[0];
        let tail = ts.drop_first();
        assert(is_signature_type(t) && (t is Instance || t is GenericInstance));
        assert(s.len() > 0);
        lemma_type_signature_round_trip(t, types_signature(tail));
        assert forall|i: int| 0 <= i < tail.len() implies is_signature_type(#[trigger] tail[i]) && (
        tail[i] is Instance || tail[i] is GenericInstance) by {
            assert(tail[i] == ts[i + 1]);
        }
        lemma_interfaces_signature_round_trip(tail);
        assert(seq![t] + tail =~= ts);
    }
}

proof fn lemma_optional_type_params_round_trip(ps: Seq<SpecFormalTypeParam>, more: Seq<char>)
    requires
        are_signature_type_params(ps),
        more.len() > 0 && more[0] != '<',
    ensures
        parse_optional_type_params(optional_type_params_signature(ps) + more) == Ok::<
            (Seq<SpecFormalTypeParam>, Seq<char>),
            SignatureErr,
        >((ps, more)),
{
    if ps.len() == 0 {
        assert(optional_type_params_signature(ps) + more =~= more);
        assert(ps =~= Seq::<SpecFormalTypeParam>::empty());
    } else {
        lemma_type_params_signature_round_trip(ps, more);
        assert(optional_type_params_signature(ps) + more =~= seq!['<'] + type_params_signature(ps)
            + seq!['>'] + more);
    }
}

/// A method signature written out reads back as the same signature: its type parameters,
/// parameter types, return type and thrown types.
pub proof fn lemma_method_signature_round_trip(m: SpecMethodSignature)
    requires
        is_signature_method(m),
    ensures
        parse_method_signature(method_signature_of(m)) == Ok::<SpecMethodSignature, SignatureErr>(
            m,
        ),
{
    let r1 = seq!['('] + types_signature(m.params) + seq![')'] + return_signature(m.ret)
        + throws_signature(m.throws);
    let s = method_signature_of(m);
    assert(s =~= optional_type_params_signature(m.type_params) + r1);
    lemma_optional_type_params_round_trip(m.type_params, r1);
    let r2 = return_signature(m.ret) + throws_signature(m.throws);
    assert(r1.drop_first() =~= types_signature(m.params) + seq![')'] + r2);
    lemma_params_signature_round_trip(m.params, r2);
    lemma_throws_signature_round_trip(m.throws);
    match m.ret {
        SpecReturnType::Void => {
            assert(r2[0] == 'V');
            assert(r2.drop_first() =~= throws_signature(m.throws));
        },
        SpecReturnType::Type(t) => {
            assert(r2[0] == type_signature(t)[0]);
            assert(type_signature(t)[0] != 'V');
            lemma_type_signature_round_trip(t, throws_signature(m.throws));
        },
    }
}

/// A class signature written out reads back as the same signature: its type parameters,
/// superclass and interfaces.
pub proof fn lemma_class_signature_round_trip(c: SpecClassSignature)
    requires
        is_signature_class(c),
    ensures
        parse_class_signature(class_signature_of(c), c.is_interface) == Ok::<
            SpecClassSignature,
            SignatureErr,
        >(c),
{
    let r1 = type_signature(c.super_class) + types_signature(c.interfaces);
    let s = class_signature_of(c);
    assert(s =~= optional_type_params_signature(c.type_params) + r1);
    assert(r1[0] == type_signature(c.super_class)[0]);
    lemma_optional_type_params_round_trip(c.type_params, r1);
    lemma_type_signature_round_trip(c.super_class, types_signature(c.interfaces));
    lemma_interfaces_signature_round_trip(c.interfaces);
}

// ----- Parsers -----

/// Reads a type as part of a signature.
fn read_type(it: &mut CharStream) -> (r: Result<JavaType, SignatureErr>)
    ensures
        match sig_type(old(it)@) {
            Ok((t, rest)) => r matches Ok(v) && v@ == t && final(it)@ == rest,
            Err(e) => r == Err::<JavaType, SignatureErr>(e),
        },
{
    match JavaType::try_recursive(it) {
        Ok(t) => Ok(t),
        Err(e) => Err(SignatureErr::from(e)),
    }
}

/// Reads interface bounds, each `:` followed by a type.
fn read_interface_bounds(it: &mut CharStream) -> (r: Result<Vec<JavaType>, SignatureErr>)
    ensures
        match parse_interface_bounds(old(it)@) {
            Ok((ts, rest)) => r matches Ok(v) && types_view(v@) == ts && final(it)@ == rest,
            Err(e) => r == Err::<Vec<JavaType>, SignatureErr>(e),
        },
{
    let ghost s0 = it@;
    let mut interface_bounds: Vec<JavaType> = Vec::new();
    loop
        invariant_except_break
            old(it)@ == s0,
            parse_interface_bounds(s0) == after_list(
                types_view(interface_bounds@),
                parse_interface_bounds(it@),
            ),
        ensures
            parse_interface_bounds(s0) == Ok::<(Seq<SpecJavaType>, Seq<char>), SignatureErr>(
                (types_view(interface_bounds@), it@),
            ),
        decreases it@.len(),
    {
        let ghost s = it@;
        let ghost before = interface_bounds@;
        if it.peek() != Some(':') {
            assert(types_view(interface_bounds@) + Seq::empty() =~= types_view(interface_bounds@));
            break ;
        }
        it.next();
        if it.peek() == Some('>') {
            return Err(SignatureErr::InvalidBound);
        }
        proof {
            lemma_parse_shortens(s.drop_first());
        }
        let t = read_type(it)?;
        interface_bounds.push(t);
        proof {
            assert(types_view(interface_bounds@) =~= types_view(before).push(t@));
            lemma_after_list_step(types_view(before), t@, parse_interface_bounds(it@));
        }
    }
    Ok(interface_bounds)
}

/// Reads one formal type parameter.
fn read_type_param(it: &mut CharStream) -> (r: Result<FormalTypeParam, SignatureErr>)
    ensures
        match parse_type_param(old(it)@) {
            Ok((p, rest)) => r matches Ok(v) && v@ == p && final(it)@ == rest,
            Err(e) => r == Err::<FormalTypeParam, SignatureErr>(e),
        },
{
    let ghost s = it@;
    let mut name = String::new();
    let ghost mut i: int = 0;
    proof {
        lemma_param_name_end_bounds(s, 0);
    }
    loop
        invariant_except_break
            old(it)@ == s,
            0 <= i <= s.len(),
            it@ == s.skip(i),
            name@ == s.take(i),
            param_name_end(s, 0) == param_name_end(s, i),
        ensures
            param_name_end(s, 0) == Some(i),
            s[i] == ':',
            it@ == s.skip(i + 1),
            name@ == s.take(i),
        decreases s.len() - i,
    {
        let ch = match it.next() {
            Some(ch) => ch,
            None => {
                return Err(SignatureErr::UnexpectedEnd);
            },
        };
        if ch == ':' {
            break ;
        }
        if ch == '>' {
            return Err(SignatureErr::InvalidIdentifier);
        }
        push_char(&mut name, ch);
        proof {
            i = i + 1;
            assert(name@ =~= s.take(i));
        }
    }
    if name.as_str().is_empty() {
        return Err(SignatureErr::InvalidIdentifier);
    }
    let class_bound = match it.peek() {
        Some(':') => None,
        Some(_) => Some(read_type(it)?),
        None => {
            return Err(SignatureErr::UnexpectedEnd);
        },
    };
    let interface_bounds = read_interface_bounds(it)?;
    Ok(FormalTypeParam { name, class_bound, interface_bounds })
}

/// Reads formal type parameters from just after `<` up to and including `>`.
fn parse_formal_type_params(it: &mut CharStream) -> (r: Result<Vec<FormalTypeParam>, SignatureErr>)
    ensures
        match parse_type_params(old(it)@) {
            Ok((ps, rest)) => r matches Ok(v) && type_params_view(v@) == ps && final(it)@ == rest,
            Err(e) => r == Err::<Vec<FormalTypeParam>, SignatureErr>(e),
        },
{
    let ghost s0 = it@;
    let mut res: Vec<FormalTypeParam> = Vec::new();
    loop
        invariant_except_break
            old(it)@ == s0,
            parse_type_params(s0) == after_list(type_params_view(res@), parse_type_params(it@)),
        ensures
            parse_type_params(s0) == Ok::<(Seq<SpecFormalTypeParam>, Seq<char>), SignatureErr>(
                (type_params_view(res@), it@),
            ),
        decreases it@.len(),
    {
        let ghost s = it@;
        let ghost before = res@;
        proof {
            lemma_type_param_shortens(s);
        }
        let p = read_type_param(it)?;
        res.push(p);
        proof {
            assert(type_params_view(res@) =~= type_params_view(before).push(p@));
        }
        match it.peek() {
            Some('>') => {
                it.next();
                assert(type_params_view(before) + seq![p@] =~= type_params_view(res@));
                break ;
            },
            Some(_) => {
                proof {
                    lemma_after_list_step(type_params_view(before), p@, parse_type_params(it@));
                }
            },
            None => {
                return Err(SignatureErr::UnexpectedEnd);
            },
        }
    }
    Ok(res)
}

/// Reads type parameters in `<` `>` if the input starts with `<`.
fn read_optional_type_params(it: &mut CharStream) -> (r: Result<Vec<FormalTypeParam>, SignatureErr>)
    ensures
        match parse_optional_type_params(old(it)@) {
            Ok((ps, rest)) => r matches Ok(v) && type_params_view(v@) == ps && final(it)@ == rest,
            Err(e) => r == Err::<Vec<FormalTypeParam>, SignatureErr>(e),
        },
{
    if it.peek() == Some('<') {
        it.next();
        parse_formal_type_params(it)
    } else {
        let v: Vec<FormalTypeParam> = Vec::new();
        assert(type_params_view(v@) =~= Seq::empty());
        Ok(v)
    }
}

impl<'a> TryFrom<&'a str> for MethodSignature {
    type Error = SignatureErr;

    /// Reads a method signature, which must make up the whole of `s`.
    fn try_from(s: &'a str) -> (r: Result<Self, Self::Error>)
        ensures
            match parse_method_signature(s@) {
                Ok(sig) => r matches Ok(v) && v@ == sig,
                Err(e) => r == Err::<MethodSignature, SignatureErr>(e),
            },
    {
        let mut it = CharStream::new(s);
        let type_params = read_optional_type_params(&mut it)?;
        if it.next() != Some('(') {
            return Err(SignatureErr::MissingParamsOpenParen);
        }
        let ghost p0 = it@;
        let mut params: Vec<JavaType> = Vec::new();
        loop
            invariant_except_break
                parse_optional_type_params(s@) matches Ok((tps, r1)) && tps == type_params_view(
                    type_params@,
                ) && r1.len() > 0 && r1[0] == '(' && p0 == r1.drop_first(),
                parse_sig_params(p0) == after_list(types_view(params@), parse_sig_params(it@)),
            ensures
                parse_sig_params(p0) == Ok::<(Seq<SpecJavaType>, Seq<char>), SignatureErr>(
                    (types_view(params@), it@),
                ),
            decreases it@.len(),
        {
            let ghost cur = it@;
            let ghost before = params@;
            match it.peek() {
                Some(')') => {
                    it.next();
                    assert(types_view(params@) + Seq::empty() =~= types_view(params@));
                    break ;
                },
                Some(_) => {
                    proof {
                        lemma_parse_shortens(cur);
                    }
                    let t = read_type(&mut it)?;
                    params.push(t);
                    proof {
                        assert(types_view(params@) =~= types_view(before).push(t@));
                        lemma_after_list_step(types_view(before), t@, parse_sig_params(it@));
                    }
                },
                None => {
                    return Err(SignatureErr::MissingParamsCloseParen);
                },
            }
        }
        let ret = match ReturnType::try_recursive(&mut it) {
            Ok(ret) => ret,
            Err(e) => {
                return Err(SignatureErr::from(e));
            },
        };
        let ghost t0 = it@;
        assert(parse_method_signature(s@) == finish_method_signature(
            type_params_view(type_params@),
            types_view(params@),
            ret@,
            parse_throws(t0),
        ));
        let mut throws: Vec<JavaType> = Vec::new();
        loop
            invariant_except_break
                parse_method_signature(s@) == finish_method_signature(
                    type_params_view(type_params@),
                    types_view(params@),
                    ret@,
                    parse_throws(t0),
                ),
                parse_throws(t0) == after_list(types_view(throws@), parse_throws(it@)),
            ensures
                parse_throws(t0) == Ok::<(Seq<SpecJavaType>, Seq<char>), SignatureErr>(
                    (types_view(throws@), it@),
                ),
            decreases it@.len(),
        {
            let ghost cur = it@;
            let ghost before = throws@;
            if it.peek() != Some('^') {
                assert(types_view(throws@) + Seq::empty() =~= types_view(throws@));
                break ;
            }
            it.next();
            proof {
                lemma_parse_shortens(cur.drop_first());
            }
            let t = read_type(&mut it)?;
            throws.push(t);
            proof {
                assert(types_view(throws@) =~= types_view(before).push(t@));
                lemma_after_list_step(types_view(before), t@, parse_throws(it@));
            }
        }
        if it.next().is_some() {
            return Err(SignatureErr::TrailingCharacters);
        }
        Ok(MethodSignature { type_params, params, ret, throws })
    }
}

/// A `MethodSignature` holds strings, which no spec function can build from characters,
/// so the result of `try_from` is described by its own `ensures`, over the model.
impl<'a> vstd::std_specs::convert::TryFromSpecImpl<&'a str> for MethodSignature {
    open spec fn obeys_try_from_spec() -> bool {
        false
    }

    open spec fn try_from_spec(value: &'a str) -> Result<Self, Self::Error> {
        arbitrary()
    }
}

/// Reads a class type if any input is left; another type is refused.
fn parse_class_type(it: &mut CharStream) -> (r: Result<Option<JavaType>, SignatureErr>)
    ensures
        match spec_parse_class_type(old(it)@) {
            Ok((t, rest)) => r matches Ok(v) && optional_type_view(v) == t && final(it)@ == rest,
            Err(e) => r == Err::<Option<JavaType>, SignatureErr>(e),
        },
{
    if it.is_empty() {
        return Ok(None);
    }
    let t = read_type(it)?;
    match t {
        JavaType::Instance(_) | JavaType::GenericInstance(_) => Ok(Some(t)),
        _ => Err(SignatureErr::InvalidSuperClassType),
    }
}

impl ClassSignature {
    /// Reads a class signature, which must make up the whole of `s`.
    pub fn new(s: &str, is_interface: bool) -> (r: Result<Self, SignatureErr>)
        ensures
            match parse_class_signature(s@, is_interface) {
                Ok(sig) => r matches Ok(v) && v@ == sig,
                Err(e) => r == Err::<ClassSignature, SignatureErr>(e),
            },
    {
        let mut it = CharStream::new(s);
        let type_params = read_optional_type_params(&mut it)?;
        let super_class = match parse_class_type(&mut it)? {
            Some(t) => t,
            None => {
                return Err(SignatureErr::MissingSuper);
            },
        };
        let ghost i0 = it@;
        assert(parse_class_signature(s@, is_interface) == finish_class_signature(
            type_params_view(type_params@),
            super_class@,
            is_interface,
            parse_interfaces(i0),
        ));
        let mut interfaces: Vec<JavaType> = Vec::new();
        loop
            invariant_except_break
                parse_class_signature(s@, is_interface) == finish_class_signature(
                    type_params_view(type_params@),
                    super_class@,
                    is_interface,
                    parse_interfaces(i0),
                ),
                parse_interfaces(i0) == match parse_interfaces(it@) {
                    Ok(ts) => Ok(types_view(interfaces@) + ts),
                    Err(e) => Err(e),
                },
            ensures
                parse_interfaces(i0) == Ok::<Seq<SpecJavaType>, SignatureErr>(
                    types_view(interfaces@),
                ),
            decreases it@.len(),
        {
            let ghost cur = it@;
            let ghost before = interfaces@;
            if it.is_empty() {
                assert(types_view(interfaces@) + Seq::empty() =~= types_view(interfaces@));
                break ;
            }
            proof {
                lemma_parse_shortens(cur);
            }
            let iface = match parse_class_type(&mut it)? {
                Some(t) => t,
                None => {
                    return Err(SignatureErr::UnexpectedEnd);
                },
            };
            interfaces.push(iface);
            proof {
                assert(types_view(interfaces@) =~= types_view(before).push(iface@));
                if let Ok(ts) = parse_interfaces(it@) {
                    assert(types_view(before) + (seq![iface@] + ts) =~= types_view(interfaces@)
                        + ts);
                }
            }
        }
        Ok(ClassSignature { is_interface, type_params, super_class, interfaces })
    }
}

// ----- Source form -----

/// All bounds of a type parameter: the class bound, if any, then the interface bounds.
pub open spec fn all_bounds(p: SpecFormalTypeParam) -> Seq<SpecJavaType> {
    match p.class_bound {
        Some(c) => seq![c] + p.interface_bounds,
        None => p.interface_bounds,
    }
}

/// The source form of bounds: ` extends A & B`, or nothing.
pub open spec fn bounds_text(bounds: Seq<SpecJavaType>) -> Seq<char> {
    if bounds.len() == 0 {
        Seq::empty()
    } else {
        " extends "@ + join(type_texts(bounds), " & "@)
    }
}

/// The source form of a type parameter: `T extends Number & Runnable`.
pub open spec fn type_param_text(p: SpecFormalTypeParam) -> Seq<char> {
    p.name + bounds_text(all_bounds(p))
}

/// Type parameters as `<A, B> `, or nothing if there are none.
pub open spec fn type_params_text(ps: Seq<SpecFormalTypeParam>) -> Seq<char> {
    if ps.len() == 0 {
        Seq::empty()
    } else {
        "<"@ + join(ps.map_values(|p: SpecFormalTypeParam| type_param_text(p)), ", "@) + "> "@
    }
}

/// The source form of a class signature: `<T> extends Base<T> implements Runnable`.
/// An interface that extends `java.lang.Object` shows no superclass.
pub open spec fn class_signature_text(c: SpecClassSignature) -> Seq<char> {
    type_params_text(c.type_params) + (if c.is_interface && c.super_class
        == SpecJavaType::Instance("java/lang/Object"@) {
        Seq::empty()
    } else {
        "extends "@ + type_text(c.super_class)
    }) + (if c.interfaces.len() == 0 {
        Seq::empty()
    } else {
        (if c.is_interface {
            " extends "@
        } else {
            " implements "@
        }) + join(type_texts(c.interfaces), ", "@)
    })
}

/// The source form of a method signature: type parameters, return type and thrown types.
pub open spec fn method_signature_text(m: SpecMethodSignature) -> Seq<char> {
    type_params_text(m.type_params) + return_text(m.ret) + (if m.throws.len() == 0 {
        Seq::empty()
    } else {
        " throws "@ + join(type_texts(m.throws), ", "@)
    })
}

fn write_type_param(out: &mut String, p: &FormalTypeParam)
    ensures
        final(out)@ == old(out)@ + type_param_text(p@),
{
    let ghost start = out@;
    let ghost all = all_bounds(p@);
    let ghost texts = type_texts(all);
    out.append(p.name.as_str());
    let mut printed_any_bound = false;
    let ghost mut k: int = 0;
    if let Some(cb) = &p.class_bound {
        out.append(" extends ");
        write_type(out, cb);
        printed_any_bound = true;
        proof {
            k = 1;
            assert(texts.take(1) =~= seq![type_text(cb@)]);
        }
    }
    let mut i: usize = 0;
    while i < p.interface_bounds.len()
        invariant
            all == all_bounds(p@),
            texts == type_texts(all),
            k == (if p.class_bound is Some {
                1int
            } else {
                0int
            }),
            all.len() == k + p.interface_bounds.len(),
            forall|j: int|
                0 <= j < p.interface_bounds.len() ==> #[trigger] all[k + j]
                    == p.interface_bounds@[j]@,
            i <= p.interface_bounds.len(),
            printed_any_bound == (k + i > 0),
            out@ == start + p.name@ + bounds_text(all.take(k + i)),
        decreases p.interface_bounds.len() - i,
    {
        let ib = &p.interface_bounds[i];
        if printed_any_bound {
            out.append(" & ");
        } else {
            out.append(" extends ");
            printed_any_bound = true;
        }
        write_type(out, ib);
        proof {
            assert(texts[k + i] == type_text(ib@));
            assert(type_texts(all.take(k + i + 1)) =~= texts.take(k + i + 1));
            assert(type_texts(all.take(k + i)) =~= texts.take(k + i));
            assert(texts.take(k + i + 1).drop_last() =~= texts.take(k + i));
            if k + i == 0 {
                assert(texts.take(1) =~= seq![type_text(ib@)]);
            }
        }
        i = i + 1;
    }
    assert(all.take(k + i) =~= all);
}

fn write_type_params(out: &mut String, ps: &Vec<FormalTypeParam>)
    ensures
        final(out)@ == old(out)@ + type_params_text(type_params_view(ps@)),
{
    let ghost v = type_params_view(ps@);
    let ghost texts = v.map_values(|p: SpecFormalTypeParam| type_param_text(p));
    if ps.len() == 0 {
        assert(out@ =~= out@ + type_params_text(v));
        return ;
    }
    let ghost start = out@;
    out.append("<");
    let mut i: usize = 0;
    while i < ps.len()
        invariant
            i <= ps.len(),
            ps.len() > 0,
            v == type_params_view(ps@),
            texts == v.map_values(|p: SpecFormalTypeParam| type_param_text(p)),
            texts.len() == ps.len(),
            out@ == start + "<"@ + join(texts.take(i as int), ", "@),
        decreases ps.len() - i,
    {
        if i > 0 {
            out.append(", ");
        }
        write_type_param(out, &ps[i]);
        assert(texts[i as int] == type_param_text(ps@[i as int]@));
        assert(texts.take(i + 1).drop_last() =~= texts.take(i as int));
        i = i + 1;
    }
    assert(texts.take(i as int) =~= texts);
    out.append("> ");
}

impl FormalTypeParam {
    /// The form of this type parameter in Java source: `T extends Number & Runnable`.
    pub fn to_string(&self) -> (r: String)
        ensures
            r@ == type_param_text(self@),
    {
        let mut out = String::new();
        write_type_param(&mut out, self);
        out
    }
}

impl ClassSignature {
    /// The form of this signature in Java source: `<T> extends Base<T> implements Runnable`.
    pub fn to_string(&self) -> (r: String)
        ensures
            r@ == class_signature_text(self@),
    {
        let mut out = String::new();
        write_type_params(&mut out, &self.type_params);
        let is_object = match &self.super_class {
            JavaType::Instance(name) => {
                let object = "java/lang/Object".to_owned();
                name.eq(&object)
            },
            _ => false,
        };
        assert(is_object == (self.super_class@ == SpecJavaType::Instance("java/lang/Object"@)));
        if !(self.is_interface && is_object) {
            out.append("extends ");
            write_type(&mut out, &self.super_class);
        }
        if self.interfaces.len() > 0 {
            if self.is_interface {
                out.append(" extends ");
            } else {
                out.append(" implements ");
            }
            write_types_joined(&mut out, &self.interfaces, ", ");
        }
        out
    }
}

impl MethodSignature {
    /// The form of this signature in Java source: type parameters, return type and
    /// thrown types.
    pub fn to_string(&self) -> (r: String)
        ensures
            r@ == method_signature_text(self@),
    {
        let mut out = String::new();
        write_type_params(&mut out, &self.type_params);
        let rt = self.ret.to_string();
        out.append(rt.as_str());
        if self.throws.len() > 0 {
            out.append(" throws ");
            write_types_joined(&mut out, &self.throws, ", ");
        }
        out
    }
}

} // verus!
