//! The grammar of field descriptors and type signatures,
//! as the parsers of this crate read it: each function takes the remaining input
//! and gives the value read together with the input that follows it.
use vstd::prelude::*;

use crate::error::TypeDescriptorErr;
use crate::jtype::{PrimitiveType, SpecClassSig, SpecJavaType, SpecReturnType, SpecSegment, SpecTypeArg};

verus! {

/// The primitive type that a descriptor character stands for.
pub open spec fn primitive_of(c: char) -> Option<PrimitiveType> {
    if c == 'B' {
        Some(PrimitiveType::Byte)
    } else if c == 'C' {
        Some(PrimitiveType::Char)
    } else if c == 'D' {
        Some(PrimitiveType::Double)
    } else if c == 'F' {
        Some(PrimitiveType::Float)
    } else if c == 'I' {
        Some(PrimitiveType::Int)
    } else if c == 'J' {
        Some(PrimitiveType::Long)
    } else if c == 'S' {
        Some(PrimitiveType::Short)
    } else if c == 'Z' {
        Some(PrimitiveType::Boolean)
    } else {
        None
    }
}

/// Scans the body of an `L...;` class type from index `i`, with `depth` the number of
/// `<` not yet closed and `generic` whether a `<` or a `.` has been seen. Gives the index
/// of the `;` that ends the type (the first one at depth 0), and whether the type is generic.
/// A `>` that closes the outermost `<` must be followed by `.` or `;`.
pub open spec fn scan_class_body(s: Seq<char>, i: int, depth: int, generic: bool) -> Result<
    (int, bool),
    TypeDescriptorErr,
>
    decreases s.len() - i,
{
    if i < 0 || i >= s.len() {
        Err(TypeDescriptorErr::UnexpectedEnd)
    } else {
        let c = s[i];
        if c == '<' {
            scan_class_body(s, i + 1, depth + 1, true)
        } else if c == '>' {
            if depth - 1 == 0 {
                if i + 1 >= s.len() {
                    Err(TypeDescriptorErr::UnexpectedEnd)
                } else if s[i + 1] == '.' || s[i + 1] == ';' {
                    scan_class_body(s, i + 1, 0, generic)
                } else {
                    Err(TypeDescriptorErr::InvalidType(s[i + 1]))
                }
            } else {
                scan_class_body(s, i + 1, depth - 1, generic)
            }
        } else if c == '.' {
            scan_class_body(s, i + 1, depth, true)
        } else if c == ';' && depth == 0 {
            Ok((i, generic))
        } else {
            scan_class_body(s, i + 1, depth, generic)
        }
    }
}

/// The index of the first `;` at or after `i`.
pub open spec fn find_semicolon(s: Seq<char>, i: int) -> Option<int>
    decreases s.len() - i,
{
    if i < 0 || i >= s.len() {
        None
    } else if s[i] == ';' {
        Some(i)
    } else {
        find_semicolon(s, i + 1)
    }
}

/// The index of the first `<` or `.` at or after `i`, or the length of `s` if there is none.
pub open spec fn segment_name_end(s: Seq<char>, i: int) -> int
    decreases s.len() - i,
{
    if i < 0 || i >= s.len() {
        s.len() as int
    } else if s[i] == '<' || s[i] == '.' {
        i
    } else {
        segment_name_end(s, i + 1)
    }
}

pub proof fn lemma_scan_class_body_bounds(s: Seq<char>, i: int, depth: int, generic: bool)
    ensures
        scan_class_body(s, i, depth, generic) matches Ok((end, g)) ==> i <= end < s.len() && s[end]
            == ';',
    decreases s.len() - i,
{
    if 0 <= i < s.len() {
        let c = s[i];
        if c == '<' {
            lemma_scan_class_body_bounds(s, i + 1, depth + 1, true);
        } else if c == '>' {
            if depth - 1 == 0 {
                lemma_scan_class_body_bounds(s, i + 1, 0, generic);
            } else {
                lemma_scan_class_body_bounds(s, i + 1, depth - 1, generic);
            }
        } else if c == '.' {
            lemma_scan_class_body_bounds(s, i + 1, depth, true);
        } else if !(c == ';' && depth == 0) {
            lemma_scan_class_body_bounds(s, i + 1, depth, generic);
        }
    }
}

pub proof fn lemma_find_semicolon_bounds(s: Seq<char>, i: int)
    ensures
        find_semicolon(s, i) matches Some(k) ==> i <= k < s.len() && s[k] == ';',
    decreases s.len() - i,
{
    if 0 <= i < s.len() && s[i] != ';' {
        lemma_find_semicolon_bounds(s, i + 1);
    }
}

pub proof fn lemma_segment_name_end_bounds(s: Seq<char>, i: int)
    requires
        0 <= i <= s.len(),
    ensures
        i <= segment_name_end(s, i) <= s.len(),
        forall|j: int| i <= j < segment_name_end(s, i) ==> s[j] != '<' && s[j] != '.',
        segment_name_end(s, i) < s.len() ==> (s[segment_name_end(s, i)] == '<' || s[segment_name_end(
            s,
            i,
        )] == '.'),
    decreases s.len() - i,
{
    if i < s.len() && s[i] != '<' && s[i] != '.' {
        lemma_segment_name_end_bounds(s, i + 1);
    }
}

/// A field type (`JavaType`) at the start of `s`. `V` is refused.
pub open spec fn parse_type(s: Seq<char>) -> Result<(SpecJavaType, Seq<char>), TypeDescriptorErr>
    decreases s.len(), 0nat,
{
    if s.len() == 0 {
        Err(TypeDescriptorErr::UnexpectedEnd)
    } else if s[0] == 'V' {
        Err(TypeDescriptorErr::InvalidType('V'))
    } else if primitive_of(s[0]) is Some {
        Ok((SpecJavaType::Primitive(primitive_of(s[0])->0), s.drop_first()))
    } else if s[0] == '[' {
        match parse_type(s.drop_first()) {
            Ok((t, rest)) => Ok((SpecJavaType::Array(Box::new(t)), rest)),
            Err(e) => Err(e),
        }
    } else if s[0] == 'L' {
        match scan_class_body(s, 1, 0, false) {
            Ok((end, generic)) => {
                proof {
                    lemma_scan_class_body_bounds(s, 1, 0, false);
                }
                let name = s.subrange(1, end);
                if generic {
                    match parse_segments(name) {
                        Ok(segs) => if segs.len() == 0 {
                            Err(TypeDescriptorErr::UnexpectedEnd)
                        } else {
                            Ok(
                                (
                                    SpecJavaType::GenericInstance(
                                        SpecClassSig { first: segs[0], suffix: segs.drop_first() },
                                    ),
                                    s.skip(end + 1),
                                ),
                            )
                        },
                        Err(e) => Err(e),
                    }
                } else {
                    Ok((SpecJavaType::Instance(name), s.skip(end + 1)))
                }
            },
            Err(e) => Err(e),
        }
    } else if s[0] == 'T' {
        match find_semicolon(s, 1) {
            Some(k) => Ok((SpecJavaType::TypeVar(s.subrange(1, k)), s.skip(k + 1))),
            None => Err(TypeDescriptorErr::UnexpectedEnd),
        }
    } else {
        Err(TypeDescriptorErr::InvalidType(s[0]))
    }
}

/// The `.`-separated segments of the name of a generic class type, each a name
/// optionally followed by type arguments in `<` `>`. What follows the arguments
/// of a segment, if it is not a `.`, is not read.
pub open spec fn parse_segments(s: Seq<char>) -> Result<Seq<SpecSegment>, TypeDescriptorErr>
    decreases s.len(), 0nat,
{
    let k = segment_name_end(s, 0);
    proof {
        lemma_segment_name_end_bounds(s, 0);
    }
    let name = s.take(k);
    let rest = s.skip(k);
    let read = if rest.len() > 0 && rest[0] == '<' {
        match parse_args(rest.drop_first()) {
            Ok((args, after)) => Ok((SpecSegment { name, args }, after)),
            Err(e) => Err(e),
        }
    } else {
        Ok((SpecSegment { name, args: Seq::empty() }, rest))
    };
    match read {
        Ok((seg, after)) => if after.len() > 0 && after[0] == '.' {
            // every step reads at least one character (see `lemma_parse_shortens`)
            if after.len() <= s.len() {
                match parse_segments(after.drop_first()) {
                    Ok(segs) => Ok(seq![seg] + segs),
                    Err(e) => Err(e),
                }
            } else {
                Err(TypeDescriptorErr::UnexpectedEnd)
            }
        } else {
            Ok(seq![seg])
        },
        Err(e) => Err(e),
    }
}

/// The type arguments of one segment, from just after its `<`, up to and including its `>`.
pub open spec fn parse_args(s: Seq<char>) -> Result<(Seq<SpecTypeArg>, Seq<char>), TypeDescriptorErr>
    decreases s.len(), 1nat,
{
    if s.len() == 0 {
        Err(TypeDescriptorErr::UnexpectedEnd)
    } else if s[0] == '>' {
        Ok((Seq::empty(), s.drop_first()))
    } else if s[0] == '*' {
        match parse_args(s.drop_first()) {
            Ok((args, after)) => Ok((seq![SpecTypeArg::Any] + args, after)),
            Err(e) => Err(e),
        }
    } else {
        let body = if s[0] == '+' || s[0] == '-' {
            s.drop_first()
        } else {
            s
        };
        match parse_type(body) {
            Ok((t, rest)) => {
                let arg = if s[0] == '+' {
                    SpecTypeArg::Extends(Box::new(t))
                } else if s[0] == '-' {
                    SpecTypeArg::Super(Box::new(t))
                } else {
                    SpecTypeArg::Exact(Box::new(t))
                };
                // every step reads at least one character (see `lemma_parse_shortens`)
                if rest.len() < s.len() {
                    match parse_args(rest) {
                        Ok((args, after)) => Ok((seq![arg] + args, after)),
                        Err(e) => Err(e),
                    }
                } else {
                    Err(TypeDescriptorErr::UnexpectedEnd)
                }
            },
            Err(e) => Err(e),
        }
    }
}

/// Where the scan of a class body started at `i` leaves the input when it fails: the index
/// of the first character not read.
pub open spec fn scan_stop(s: Seq<char>, i: int, depth: int) -> int
    decreases s.len() - i,
{
    if i < 0 || i >= s.len() {
        s.len() as int
    } else {
        let c = s[i];
        if c == '<' {
            scan_stop(s, i + 1, depth + 1)
        } else if c == '>' {
            if depth - 1 == 0 {
                if i + 1 < s.len() && (s[i + 1] == '.' || s[i + 1] == ';') {
                    scan_stop(s, i + 1, 0)
                } else {
                    i + 1
                }
            } else {
                scan_stop(s, i + 1, depth - 1)
            }
        } else if c == ';' && depth == 0 {
            i + 1
        } else {
            scan_stop(s, i + 1, depth)
        }
    }
}

/// What is left of `s` after reading a field type, whether or not the read succeeds:
/// a character that shows the type to be invalid is not read, and a class type or type
/// variable is read up to its end before its name is checked.
pub open spec fn type_stop(s: Seq<char>) -> Seq<char>
    decreases s.len(),
{
    if s.len() == 0 || s[0] == 'V' {
        s
    } else if primitive_of(s[0]) is Some {
        s.drop_first()
    } else if s[0] == '[' {
        type_stop(s.drop_first())
    } else if s[0] == 'L' {
        match scan_class_body(s, 1, 0, false) {
            Ok((end, _)) => s.skip(end + 1),
            Err(_) => s.skip(scan_stop(s, 1, 0)),
        }
    } else if s[0] == 'T' {
        match find_semicolon(s, 1) {
            Some(k) => s.skip(k + 1),
            None => Seq::empty(),
        }
    } else {
        s
    }
}

/// What is left of `s` after reading a return type, whether or not the read succeeds.
pub open spec fn return_type_stop(s: Seq<char>) -> Seq<char> {
    if s.len() > 0 && s[0] == 'V' {
        s.drop_first()
    } else {
        type_stop(s)
    }
}

/// A return type (`V` or a field type) at the start of `s`.
pub open spec fn parse_return_type(s: Seq<char>) -> Result<
    (SpecReturnType, Seq<char>),
    TypeDescriptorErr,
> {
    if s.len() == 0 {
        Err(TypeDescriptorErr::UnexpectedEnd)
    } else if s[0] == 'V' {
        Ok((SpecReturnType::Void, s.drop_first()))
    } else {
        match parse_type(s) {
            Ok((t, rest)) => Ok((SpecReturnType::Type(t), rest)),
            Err(e) => Err(e),
        }
    }
}

/// Where a successful read of a field type leaves the input is what the read leaves.
pub proof fn lemma_type_stop_on_success(s: Seq<char>)
    ensures
        parse_type(s) matches Ok((t, rest)) ==> type_stop(s) == rest,
        parse_return_type(s) matches Ok((r, rest)) ==> return_type_stop(s) == rest,
    decreases s.len(),
{
    if s.len() > 0 && s[0] == '[' {
        lemma_type_stop_on_success(s.drop_first());
    }
}

/// Whether `rest` is a proper suffix of `s`.
pub open spec fn is_proper_suffix(rest: Seq<char>, s: Seq<char>) -> bool {
    rest.len() < s.len() && rest == s.skip(s.len() - rest.len())
}

/// Whatever a successful parse leaves is what follows a non-empty prefix of its input.
pub proof fn lemma_parse_shortens(s: Seq<char>)
    ensures
        parse_type(s) matches Ok((t, rest)) ==> is_proper_suffix(rest, s),
        parse_args(s) matches Ok((a, rest)) ==> is_proper_suffix(rest, s),
    decreases s.len(),
{
    lemma_parse_type_shortens(s);
    lemma_parse_args_shortens(s);
}

proof fn lemma_parse_type_shortens(s: Seq<char>)
    ensures
        parse_type(s) matches Ok((t, rest)) ==> is_proper_suffix(rest, s),
    decreases s.len(), 0nat,
{
    if s.len() > 0 && s[0] != 'V' && primitive_of(s[0]) is None {
        if s[0] == '[' {
            lemma_parse_type_shortens(s.drop_first());
            if let Ok((t, rest)) = parse_type(s.drop_first()) {
                assert(rest == s.skip(s.len() - rest.len()));
            }
        } else if s[0] == 'L' {
            lemma_scan_class_body_bounds(s, 1, 0, false);
        } else if s[0] == 'T' {
            lemma_find_semicolon_bounds(s, 1);
        }
    }
}

proof fn lemma_parse_args_shortens(s: Seq<char>)
    ensures
        parse_args(s) matches Ok((a, rest)) ==> is_proper_suffix(rest, s),
    decreases s.len(), 1nat,
{
    if s.len() > 0 && s[0] != '>' {
        if s[0] == '*' {
            lemma_parse_args_shortens(s.drop_first());
            if let Ok((a, rest)) = parse_args(s.drop_first()) {
                assert(rest == s.skip(s.len() - rest.len()));
            }
        } else {
            let body = if s[0] == '+' || s[0] == '-' {
                s.drop_first()
            } else {
                s
            };
            lemma_parse_type_shortens(body);
            if let Ok((t, rest)) = parse_type(body) {
                if rest.len() < s.len() {
                    lemma_parse_args_shortens(rest);
                    if let Ok((a, after)) = parse_args(rest) {
                        assert(rest == s.skip(s.len() - rest.len()));
                        assert(after == s.skip(s.len() - after.len()));
                    }
                }
            }
        }
    }
}

// ----- Laws of the grammar -----

proof fn lemma_scan_class_body_extend(s: Seq<char>, more: Seq<char>, i: int, depth: int, generic: bool)
    requires
        scan_class_body(s, i, depth, generic) is Ok,
    ensures
        scan_class_body(s + more, i, depth, generic) == scan_class_body(s, i, depth, generic),
    decreases s.len() - i,
{
    let c = s[i];
    assert((s + more)[i] == c);
    if c == '<' {
        lemma_scan_class_body_extend(s, more, i + 1, depth + 1, true);
    } else if c == '>' {
        if depth - 1 == 0 {
            assert((s + more)[i + 1] == s[i + 1]);
            lemma_scan_class_body_extend(s, more, i + 1, 0, generic);
        } else {
            lemma_scan_class_body_extend(s, more, i + 1, depth - 1, generic);
        }
    } else if c == '.' {
        lemma_scan_class_body_extend(s, more, i + 1, depth, true);
    } else if !(c == ';' && depth == 0) {
        lemma_scan_class_body_extend(s, more, i + 1, depth, generic);
    }
}

proof fn lemma_find_semicolon_extend(s: Seq<char>, more: Seq<char>, i: int)
    requires
        find_semicolon(s, i) is Some,
    ensures
        find_semicolon(s + more, i) == find_semicolon(s, i),
    decreases s.len() - i,
{
    assert((s + more)[i] == s[i]);
    if s[i] != ';' {
        lemma_find_semicolon_extend(s, more, i + 1);
    }
}

/// Reading a field type looks at no character after the type: whatever follows a type
/// that reads successfully is left unread, and does not change the type read.
pub proof fn lemma_parse_type_ignores_what_follows(s: Seq<char>, more: Seq<char>)
    requires
        parse_type(s) is Ok,
    ensures
        parse_type(s + more) == Ok::<(SpecJavaType, Seq<char>), TypeDescriptorErr>(
            (parse_type(s)->Ok_0.0, parse_type(s)->Ok_0.1 + more),
        ),
    decreases s.len(),
{
    let sm = s + more;
    assert(sm[0] == s[0]);
    if s[0] == '[' {
        assert(sm.drop_first() =~= s.drop_first() + more);
        lemma_parse_type_ignores_what_follows(s.drop_first(), more);
    } else if s[0] == 'L' {
        lemma_scan_class_body_extend(s, more, 1, 0, false);
        lemma_scan_class_body_bounds(s, 1, 0, false);
        let end = scan_class_body(s, 1, 0, false)->Ok_0.0;
        assert(sm.subrange(1, end) =~= s.subrange(1, end));
        assert(sm.skip(end + 1) =~= s.skip(end + 1) + more);
    } else if s[0] == 'T' {
        lemma_find_semicolon_extend(s, more, 1);
        lemma_find_semicolon_bounds(s, 1);
        let k = find_semicolon(s, 1)->Some_0;
        assert(sm.subrange(1, k) =~= s.subrange(1, k));
        assert(sm.skip(k + 1) =~= s.skip(k + 1) + more);
    } else {
        assert(sm.drop_first() =~= s.drop_first() + more);
    }
}

/// The descriptor character of a primitive type.
pub open spec fn primitive_char(p: PrimitiveType) -> char {
    match p {
        PrimitiveType::Byte => 'B',
        PrimitiveType::Char => 'C',
        PrimitiveType::Double => 'D',
        PrimitiveType::Float => 'F',
        PrimitiveType::Int => 'I',
        PrimitiveType::Long => 'J',
        PrimitiveType::Short => 'S',
        PrimitiveType::Boolean => 'Z',
    }
}

/// Whether a class name can stand in a plain `L...;` descriptor: it holds none of the
/// characters `;`, `<`, `>` and `.`.
pub open spec fn is_plain_class_name(n: Seq<char>) -> bool {
    forall|i: int| 0 <= i < n.len() ==> n[i] != ';' && n[i] != '<' && n[i] != '>' && n[i] != '.'
}

/// Whether a type is written by a field descriptor: a primitive type,
/// a class type with a plain name, or an array of such a type.
pub open spec fn is_descriptor_type(t: SpecJavaType) -> bool
    decreases t,
{
    match t {
        SpecJavaType::Primitive(_) => true,
        SpecJavaType::Instance(n) => is_plain_class_name(n),
        SpecJavaType::Array(e) => is_descriptor_type(*e),
        _ => false,
    }
}

/// The field descriptor of a type.
pub open spec fn descriptor_of(t: SpecJavaType) -> Seq<char>
    decreases t,
{
    match t {
        SpecJavaType::Primitive(p) => seq![primitive_char(p)],
        SpecJavaType::Instance(n) => seq!['L'] + n + seq![';'],
        SpecJavaType::Array(e) => seq!['['] + descriptor_of(*e),
        _ => Seq::empty(),
    }
}

proof fn lemma_scan_plain_name(s: Seq<char>, n: Seq<char>, i: int)
    requires
        is_plain_class_name(n),
        1 <= i <= n.len() as int + 1,
        s.len() > n.len() as int + 1,
        s.subrange(1, n.len() as int + 1) == n,
        s[n.len() as int + 1] == ';',
    ensures
        scan_class_body(s, i, 0, false) == Ok::<(int, bool), TypeDescriptorErr>(
            (n.len() as int + 1, false),
        ),
    decreases n.len() as int + 1 - i,
{
    if i <= n.len() {
        assert(s[i] == n[i - 1]);
        lemma_scan_plain_name(s, n, i + 1);
    }
}

/// Reading the descriptor of a type, followed by anything, gives back the type and leaves
/// exactly what followed.
pub proof fn lemma_descriptor_round_trip(t: SpecJavaType, more: Seq<char>)
    requires
        is_descriptor_type(t),
    ensures
        parse_type(descriptor_of(t) + more) == Ok::<(SpecJavaType, Seq<char>), TypeDescriptorErr>(
            (t, more),
        ),
    decreases t,
{
    let s = descriptor_of(t) + more;
    match t {
        SpecJavaType::Primitive(p) => {
            assert(s[0] == primitive_char(p));
            assert(s.drop_first() =~= more);
        },
        SpecJavaType::Instance(n) => {
            assert(s[0] == 'L');
            assert(s.subrange(1, n.len() as int + 1) =~= n);
            assert(s[n.len() as int + 1] == ';');
            lemma_scan_plain_name(s, n, 1);
            assert(s.skip(n.len() as int + 2) =~= more);
        },
        SpecJavaType::Array(e) => {
            assert(s[0] == '[');
            assert(s.drop_first() =~= descriptor_of(*e) + more);
            lemma_descriptor_round_trip(*e, more);
        },
        _ => {},
    }
}

// ----- Signatures of generic types -----

/// The signature of a type: the descriptor form, extended with type arguments in `<` `>`,
/// inner-class segments after `.`, and type variables as `T`, the name and `;`.
pub open spec fn type_signature(t: SpecJavaType) -> Seq<char>
    decreases t,
{
    match t {
        SpecJavaType::Primitive(p) => seq![primitive_char(p)],
        SpecJavaType::Instance(n) => seq!['L'] + n + seq![';'],
        SpecJavaType::GenericInstance(sig) => seq!['L'] + segment_signature(sig.first)
            + suffix_signature(sig.suffix) + seq![';'],
        SpecJavaType::TypeVar(n) => seq!['T'] + n + seq![';'],
        SpecJavaType::Array(e) => seq!['['] + type_signature(*e),
    }
}

/// The signature of a type argument: `*`, `+` or `-` before a bound, or the type itself.
pub open spec fn arg_signature(a: SpecTypeArg) -> Seq<char>
    decreases a,
{
    match a {
        SpecTypeArg::Any => seq!['*'],
        SpecTypeArg::Extends(t) => seq!['+'] + type_signature(*t),
        SpecTypeArg::Super(t) => seq!['-'] + type_signature(*t),
        SpecTypeArg::Exact(t) => type_signature(*t),
    }
}

/// The signatures of type arguments, one after the other.
pub open spec fn args_signature(a: Seq<SpecTypeArg>) -> Seq<char>
    decreases a,
{
    if a.len() == 0 {
        Seq::empty()
    } else {
        arg_signature(a[0]) + args_signature(a.drop_first())
    }
}

/// The signature of a segment of a class type: its name, then its type arguments in
/// `<` `>` if it has any.
pub open spec fn segment_signature(seg: SpecSegment) -> Seq<char>
    decreases seg,
{
    if seg.args.len() == 0 {
        seg.name
    } else {
        seg.name + seq!['<'] + args_signature(seg.args) + seq!['>']
    }
}

/// The signatures of inner-class segments, each after a `.`.
pub open spec fn suffix_signature(segs: Seq<SpecSegment>) -> Seq<char>
    decreases segs,
{
    if segs.len() == 0 {
        Seq::empty()
    } else {
        seq!['.'] + segment_signature(segs[0]) + suffix_signature(segs.drop_first())
    }
}

/// Whether a type has a signature that reads back as that type: every class, segment and
/// type variable name is plain (no `;`, `<`, `>` or `.`), and a generic class type has
/// type arguments or an inner-class segment (else it is a plain class type).
pub open spec fn is_signature_type(t: SpecJavaType) -> bool
    decreases t,
{
    match t {
        SpecJavaType::Primitive(_) => true,
        SpecJavaType::Instance(n) => is_plain_class_name(n),
        SpecJavaType::GenericInstance(sig) => is_signature_segment(sig.first)
            && is_signature_suffix(sig.suffix) && (sig.first.args.len() > 0
            || sig.suffix.len() > 0),
        SpecJavaType::TypeVar(n) => is_plain_class_name(n),
        SpecJavaType::Array(e) => is_signature_type(*e),
    }
}

/// Whether a type argument has a signature that reads back as that argument.
pub open spec fn is_signature_arg(a: SpecTypeArg) -> bool
    decreases a,
{
    match a {
        SpecTypeArg::Any => true,
        SpecTypeArg::Extends(t) => is_signature_type(*t),
        SpecTypeArg::Super(t) => is_signature_type(*t),
        SpecTypeArg::Exact(t) => is_signature_type(*t),
    }
}

/// Whether type arguments have signatures that read back as those arguments.
pub open spec fn is_signature_args(a: Seq<SpecTypeArg>) -> bool
    decreases a,
{
    a.len() == 0 || (is_signature_arg(a[0]) && is_signature_args(a.drop_first()))
}

/// Whether a segment has a plain name and arguments with signatures.
pub open spec fn is_signature_segment(seg: SpecSegment) -> bool
    decreases seg,
{
    is_plain_class_name(seg.name) && is_signature_args(seg.args)
}

/// Whether inner-class segments have plain names and arguments with signatures.
pub open spec fn is_signature_suffix(segs: Seq<SpecSegment>) -> bool
    decreases segs,
{
    segs.len() == 0 || (is_signature_segment(segs[0]) && is_signature_suffix(segs.drop_first()))
}

/// Whether `x` stands in `s` from index `i` on.
pub open spec fn occurs_at(s: Seq<char>, i: int, x: Seq<char>) -> bool {
    &&& 0 <= i
    &&& i + x.len() <= s.len()
    &&& forall|k: int| 0 <= k < x.len() ==> s[i + k] == #[trigger] x[k]
}

proof fn lemma_occurs_split(s: Seq<char>, i: int, x: Seq<char>, y: Seq<char>)
    requires
        occurs_at(s, i, x + y),
    ensures
        occurs_at(s, i, x),
        occurs_at(s, i + x.len(), y),
{
    assert forall|k: int| 0 <= k < x.len() implies s[i + k] == x[k] by {
        assert((x + y)[k] == x[k]);
    }
    assert forall|k: int| 0 <= k < y.len() implies s[i + x.len() + k] == y[k] by {
        assert((x + y)[x.len() + k] == y[k]);
    }
}

proof fn lemma_occurs_three(s: Seq<char>, i: int, x: Seq<char>, y: Seq<char>, z: Seq<char>)
    requires
        occurs_at(s, i, x + y + z),
    ensures
        occurs_at(s, i, x),
        occurs_at(s, i + x.len(), y),
        occurs_at(s, i + x.len() + y.len(), z),
{
    lemma_occurs_split(s, i, x + y, z);
    lemma_occurs_split(s, i, x, y);
}

/// Inside type arguments (`depth` at least one), characters other than `<` and `>`
/// leave the scan of a class body where it was.
proof fn lemma_scan_deep_flat(s: Seq<char>, i: int, x: Seq<char>, depth: int)
    requires
        depth >= 1,
        occurs_at(s, i, x),
        forall|k: int| 0 <= k < x.len() ==> #[trigger] x[k] != '<' && x[k] != '>',
    ensures
        scan_class_body(s, i, depth, true) == scan_class_body(s, i + x.len(), depth, true),
    decreases x.len(),
{
    if x.len() > 0 {
        assert(s[i + 0] == x[0]);
        assert(x[0] != '<' && x[0] != '>');
        let y = x.drop_first();
        assert forall|k: int| 0 <= k < y.len() implies s[i + 1 + k] == y[k] by {
            assert(s[i + (k + 1)] == x[k + 1]);
        }
        assert forall|k: int| 0 <= k < y.len() implies #[trigger] y[k] != '<' && y[k] != '>' by {
            assert(x[k + 1] != '<');
        }
        lemma_scan_deep_flat(s, i + 1, y, depth);
    }
}

/// Characters of a plain name leave the scan of a class body where it was.
proof fn lemma_scan_plain(s: Seq<char>, i: int, x: Seq<char>, depth: int, generic: bool)
    requires
        occurs_at(s, i, x),
        is_plain_class_name(x),
    ensures
        scan_class_body(s, i, depth, generic) == scan_class_body(s, i + x.len(), depth, generic),
    decreases x.len(),
{
    if x.len() > 0 {
        assert(s[i + 0] == x[0]);
        let y = x.drop_first();
        assert forall|k: int| 0 <= k < y.len() implies s[i + 1 + k] == y[k] by {
            assert(s[i + (k + 1)] == x[k + 1]);
        }
        lemma_scan_plain(s, i + 1, y, depth, generic);
    }
}

proof fn lemma_plain_deep(x: Seq<char>)
    requires
        is_plain_class_name(x),
    ensures
        forall|k: int| 0 <= k < x.len() ==> #[trigger] x[k] != '<' && x[k] != '>',
{
}

/// Inside type arguments, the signature of a type leaves the scan where it was.
proof fn lemma_scan_type_deep(s: Seq<char>, i: int, depth: int, t: SpecJavaType)
    requires
        depth >= 1,
        is_signature_type(t),
        occurs_at(s, i, type_signature(t)),
    ensures
        scan_class_body(s, i, depth, true) == scan_class_body(
            s,
            i + type_signature(t).len(),
            depth,
            true,
        ),
    decreases t,
{
    match t {
        SpecJavaType::Primitive(p) => {
            let x = seq![primitive_char(p)];
            assert forall|k: int| 0 <= k < x.len() implies #[trigger] x[k] != '<' && x[k] != '>' by {}
            lemma_scan_deep_flat(s, i, x, depth);
        },
        SpecJavaType::Instance(n) | SpecJavaType::TypeVar(n) => {
            let x = type_signature(t);
            assert forall|k: int| 0 <= k < x.len() implies #[trigger] x[k] != '<' && x[k] != '>' by {
                if 1 <= k < x.len() - 1 {
                    assert(x[k] == n[k - 1]);
                }
            }
            lemma_scan_deep_flat(s, i, x, depth);
        },
        SpecJavaType::GenericInstance(sig) => {
            let a = seq!['L'];
            let b = segment_signature(sig.first);
            let c = suffix_signature(sig.suffix);
            let d = seq![';'];
            assert(type_signature(t) == a + b + c + d);
            lemma_occurs_split(s, i, a + b + c, d);
            lemma_occurs_three(s, i, a, b, c);
            lemma_scan_deep_flat(s, i, a, depth);
            lemma_scan_segment_deep(s, i + 1, depth, sig.first);
            lemma_scan_suffix_deep(s, i + 1 + b.len(), depth, sig.suffix);
            assert forall|k: int| 0 <= k < d.len() implies #[trigger] d[k] != '<' && d[k] != '>' by {}
            lemma_scan_deep_flat(s, i + 1 + b.len() + c.len(), d, depth);
        },
        SpecJavaType::Array(e) => {
            let a = seq!['['];
            lemma_occurs_split(s, i, a, type_signature(*e));
            assert forall|k: int| 0 <= k < a.len() implies #[trigger] a[k] != '<' && a[k] != '>' by {}
            lemma_scan_deep_flat(s, i, a, depth);
            lemma_scan_type_deep(s, i + 1, depth, *e);
        },
    }
}

proof fn lemma_scan_args_deep(s: Seq<char>, i: int, depth: int, a: Seq<SpecTypeArg>)
    requires
        depth >= 1,
        is_signature_args(a),
        occurs_at(s, i, args_signature(a)),
    ensures
        scan_class_body(s, i, depth, true) == scan_class_body(
            s,
            i + args_signature(a).len(),
            depth,
            true,
        ),
    decreases a,
{
    if a.len() > 0 {
        let x = arg_signature(a[0]);
        lemma_occurs_split(s, i, x, args_signature(a.drop_first()));
        assert(is_signature_arg(a[0]));
        match a[0] {
            SpecTypeArg::Any => {
                assert forall|k: int| 0 <= k < x.len() implies #[trigger] x[k] != '<' && x[k] != '>' by {}
                lemma_scan_deep_flat(s, i, x, depth);
            },
            SpecTypeArg::Extends(t) | SpecTypeArg::Super(t) => {
                let m = seq![x[0]];
                lemma_occurs_split(s, i, m, type_signature(*t));
                assert(x == m + type_signature(*t));
                assert forall|k: int| 0 <= k < m.len() implies #[trigger] m[k] != '<' && m[k] != '>' by {}
                lemma_scan_deep_flat(s, i, m, depth);
                lemma_scan_type_deep(s, i + 1, depth, *t);
            },
            SpecTypeArg::Exact(t) => {
                lemma_scan_type_deep(s, i, depth, *t);
            },
        }
        lemma_scan_args_deep(s, i + x.len(), depth, a.drop_first());
    }
}

proof fn lemma_scan_segment_deep(s: Seq<char>, i: int, depth: int, seg: SpecSegment)
    requires
        depth >= 1,
        is_signature_segment(seg),
        occurs_at(s, i, segment_signature(seg)),
    ensures
        scan_class_body(s, i, depth, true) == scan_class_body(
            s,
            i + segment_signature(seg).len(),
            depth,
            true,
        ),
    decreases seg,
{
    let n = seg.name;
    lemma_plain_deep(n);
    if seg.args.len() == 0 {
        lemma_scan_deep_flat(s, i, n, depth);
    } else {
        let x = args_signature(seg.args);
        lemma_occurs_split(s, i, n + seq!['<'] + x, seq!['>']);
        lemma_occurs_three(s, i, n, seq!['<'], x);
        lemma_scan_deep_flat(s, i, n, depth);
        assert(s[i + n.len() + 0] == seq!['<'][0]);
        lemma_scan_args_deep(s, i + n.len() + 1, depth + 1, seg.args);
        assert(s[i + n.len() + 1 + x.len() + 0] == seq!['>'][0]);
    }
}

proof fn lemma_scan_suffix_deep(s: Seq<char>, i: int, depth: int, segs: Seq<SpecSegment>)
    requires
        depth >= 1,
        is_signature_suffix(segs),
        occurs_at(s, i, suffix_signature(segs)),
    ensures
        scan_class_body(s, i, depth, true) == scan_class_body(
            s,
            i + suffix_signature(segs).len(),
            depth,
            true,
        ),
    decreases segs,
{
    if segs.len() > 0 {
        let b = segment_signature(segs[0]);
        let c = suffix_signature(segs.drop_first());
        lemma_occurs_three(s, i, seq!['.'], b, c);
        assert(s[i + 0] == seq!['.'][0]);
        lemma_scan_segment_deep(s, i + 1, depth, segs[0]);
        lemma_scan_suffix_deep(s, i + 1 + b.len(), depth, segs.drop_first());
    }
}

proof fn lemma_occurs_whole(x: Seq<char>, y: Seq<char>)
    ensures
        occurs_at(x + y, 0, x),
        occurs_at(x + y, x.len() as int, y),
{
    assert forall|k: int| 0 <= k < x.len() implies (x + y)[0 + k] == x[k] by {}
    assert forall|k: int| 0 <= k < y.len() implies (x + y)[x.len() + k] == y[k] by {}
}

/// At the outermost level, a segment leaves the scan after it, having seen a `<` if it
/// has type arguments; it must be followed by `.` or `;`.
proof fn lemma_scan_segment_top(s: Seq<char>, i: int, seg: SpecSegment, generic: bool)
    requires
        is_signature_segment(seg),
        occurs_at(s, i, segment_signature(seg)),
        i + segment_signature(seg).len() < s.len(),
        s[i + segment_signature(seg).len()] == '.' || s[i + segment_signature(seg).len()] == ';',
    ensures
        scan_class_body(s, i, 0, generic) == scan_class_body(
            s,
            i + segment_signature(seg).len(),
            0,
            generic || seg.args.len() > 0,
        ),
{
    let n = seg.name;
    if seg.args.len() == 0 {
        lemma_scan_plain(s, i, n, 0, generic);
    } else {
        let x = args_signature(seg.args);
        lemma_occurs_split(s, i, n + seq!['<'] + x, seq!['>']);
        lemma_occurs_three(s, i, n, seq!['<'], x);
        lemma_scan_plain(s, i, n, 0, generic);
        assert(s[i + n.len() + 0] == seq!['<'][0]);
        lemma_scan_args_deep(s, i + n.len() + 1, 1, seg.args);
        assert(s[i + n.len() + 1 + x.len() + 0] == seq!['>'][0]);
    }
}

/// At the outermost level, inner-class segments followed by `;` leave the scan at the
/// `;`, having seen a `.` if there is any segment.
proof fn lemma_scan_suffix_top(s: Seq<char>, i: int, segs: Seq<SpecSegment>, generic: bool)
    requires
        is_signature_suffix(segs),
        occurs_at(s, i, suffix_signature(segs)),
        i + suffix_signature(segs).len() < s.len(),
        s[i + suffix_signature(segs).len()] == ';',
    ensures
        scan_class_body(s, i, 0, generic) == scan_class_body(
            s,
            i + suffix_signature(segs).len(),
            0,
            generic || segs.len() > 0,
        ),
    decreases segs,
{
    if segs.len() > 0 {
        let b = segment_signature(segs[0]);
        let c = suffix_signature(segs.drop_first());
        lemma_occurs_three(s, i, seq!['.'], b, c);
        assert(s[i + 0] == seq!['.'][0]);
        if c.len() > 0 {
            assert(c[0] == '.');
            assert(s[i + 1 + b.len() + 0] == c[0]);
        }
        lemma_scan_segment_top(s, i + 1, segs[0], true);
        lemma_scan_suffix_top(s, i + 1 + b.len(), segs.drop_first(), true);
    }
}

proof fn lemma_find_semicolon_plain(s: Seq<char>, i: int, x: Seq<char>)
    requires
        occurs_at(s, i, x),
        is_plain_class_name(x),
    ensures
        find_semicolon(s, i) == find_semicolon(s, i + x.len()),
    decreases x.len(),
{
    if x.len() > 0 {
        assert(s[i + 0] == x[0]);
        let y = x.drop_first();
        assert forall|k: int| 0 <= k < y.len() implies s[i + 1 + k] == y[k] by {
            assert(s[i + (k + 1)] == x[k + 1]);
        }
        lemma_find_semicolon_plain(s, i + 1, y);
    }
}

proof fn lemma_segment_name_end_plain(s: Seq<char>, i: int, x: Seq<char>)
    requires
        occurs_at(s, i, x),
        is_plain_class_name(x),
    ensures
        segment_name_end(s, i) == segment_name_end(s, i + x.len()),
    decreases x.len(),
{
    if x.len() > 0 {
        assert(s[i + 0] == x[0]);
        let y = x.drop_first();
        assert forall|k: int| 0 <= k < y.len() implies s[i + 1 + k] == y[k] by {
            assert(s[i + (k + 1)] == x[k + 1]);
        }
        lemma_segment_name_end_plain(s, i + 1, y);
    }
}

/// Reading the signature of a type, followed by anything, gives back the type and leaves
/// exactly what followed; this holds of generic class types whose arguments are
/// themselves generic, of type variables and of arrays of any of them.
pub proof fn lemma_type_signature_round_trip(t: SpecJavaType, more: Seq<char>)
    requires
        is_signature_type(t),
    ensures
        parse_type(type_signature(t) + more) == Ok::<(SpecJavaType, Seq<char>), TypeDescriptorErr>(
            (t, more),
        ),
    decreases t,
{
    let s = type_signature(t) + more;
    match t {
        SpecJavaType::Primitive(p) => {
            lemma_descriptor_round_trip(t, more);
        },
        SpecJavaType::Instance(n) => {
            lemma_descriptor_round_trip(t, more);
        },
        SpecJavaType::TypeVar(n) => {
            lemma_occurs_whole(type_signature(t), more);
            let k: int = n.len() as int + 1;
            lemma_occurs_three(s, 0, seq!['T'], n, seq![';']);
            assert(s[0int + 0] == seq!['T'][0]);
            lemma_find_semicolon_plain(s, 1, n);
            assert(s[k + 0] == seq![';'][0]);
            assert(s.subrange(1, k) =~= n);
            assert(s.skip(k + 1) =~= more);
        },
        SpecJavaType::Array(e) => {
            assert(s[0] == '[');
            assert(s.drop_first() =~= type_signature(*e) + more);
            lemma_type_signature_round_trip(*e, more);
        },
        SpecJavaType::GenericInstance(sig) => {
            let b = segment_signature(sig.first);
            let c = suffix_signature(sig.suffix);
            let bl: int = b.len() as int;
            let end: int = 1 + bl + c.len();
            lemma_occurs_whole(type_signature(t), more);
            lemma_occurs_split(s, 0, seq!['L'] + b + c, seq![';']);
            lemma_occurs_three(s, 0, seq!['L'], b, c);
            assert(s[0int + 0] == seq!['L'][0]);
            assert(s[end + 0] == seq![';'][0]);
            if c.len() > 0 {
                assert(c[0] == '.');
                assert(s[1 + bl + 0] == c[0]);
            }
            lemma_scan_segment_top(s, 1, sig.first, false);
            lemma_scan_suffix_top(s, 1 + bl, sig.suffix, sig.first.args.len() > 0);
            assert(scan_class_body(s, 1, 0, false) == Ok::<(int, bool), TypeDescriptorErr>(
                (end, true),
            ));
            assert(s.subrange(1, end) =~= b + c);
            lemma_segment_step(sig.first, c);
            let segs = seq![sig.first] + sig.suffix;
            if sig.suffix.len() > 0 {
                assert(c.drop_first() =~= segment_signature(sig.suffix[0]) + suffix_signature(
                    sig.suffix.drop_first(),
                ));
                lemma_suffix_signature_round_trip(sig.suffix);
            } else {
                assert(segs =~= seq![sig.first]);
            }
            assert(parse_segments(b + c) == Ok::<Seq<SpecSegment>, TypeDescriptorErr>(segs));
            assert(segs.drop_first() =~= sig.suffix);
            assert(SpecClassSig { first: segs[0], suffix: segs.drop_first() } == sig);
            assert(s.skip(end + 1) =~= more);
        },
    }
}

/// Reading the signatures of type arguments followed by `>` gives back the arguments and
/// leaves what follows the `>`.
pub proof fn lemma_args_signature_round_trip(a: Seq<SpecTypeArg>, more: Seq<char>)
    requires
        is_signature_args(a),
    ensures
        parse_args(args_signature(a) + seq!['>'] + more) == Ok::<
            (Seq<SpecTypeArg>, Seq<char>),
            TypeDescriptorErr,
        >((a, more)),
    decreases a,
{
    let s = args_signature(a) + seq!['>'] + more;
    if a.len() == 0 {
        assert(s[0] == '>');
        assert(s.drop_first() =~= more);
        assert(a =~= Seq::<SpecTypeArg>::empty());
    } else {
        let x = arg_signature(a[0]);
        let tail = args_signature(a.drop_first()) + seq!['>'] + more;
        assert(s =~= x + tail);
        assert(is_signature_arg(a[0]));
        lemma_args_signature_round_trip(a.drop_first(), more);
        match a[0] {
            SpecTypeArg::Any => {
                assert(s[0] == '*');
                assert(s.drop_first() =~= tail);
                assert(parse_args(s) == Ok::<(Seq<SpecTypeArg>, Seq<char>), TypeDescriptorErr>(
                    (seq![a[0]] + a.drop_first(), more),
                ));
            },
            SpecTypeArg::Extends(t) => {
                assert(s[0] == '+');
                assert(s.drop_first() =~= type_signature(*t) + tail);
                lemma_type_signature_round_trip(*t, tail);
                assert(parse_args(s) == Ok::<(Seq<SpecTypeArg>, Seq<char>), TypeDescriptorErr>(
                    (seq![a[0]] + a.drop_first(), more),
                ));
            },
            SpecTypeArg::Super(t) => {
                assert(s[0] == '-');
                assert(s.drop_first() =~= type_signature(*t) + tail);
                lemma_type_signature_round_trip(*t, tail);
                assert(parse_args(s) == Ok::<(Seq<SpecTypeArg>, Seq<char>), TypeDescriptorErr>(
                    (seq![a[0]] + a.drop_first(), more),
                ));
            },
            SpecTypeArg::Exact(t) => {
                assert(type_signature(*t)[0] != '>' && type_signature(*t)[0] != '*'
                    && type_signature(*t)[0] != '+' && type_signature(*t)[0] != '-');
                assert(s[0] == type_signature(*t)[0]);
                assert(s =~= type_signature(*t) + tail);
                lemma_type_signature_round_trip(*t, tail);
                assert(parse_args(s) == Ok::<(Seq<SpecTypeArg>, Seq<char>), TypeDescriptorErr>(
                    (seq![a[0]] + a.drop_first(), more),
                ));
            },
        }
        assert(seq![a[0]] + a.drop_first() =~= a);
    }
}

/// Reading one segment of a generic class name: the segment, then, after a `.`, the rest.
proof fn lemma_segment_step(seg: SpecSegment, after: Seq<char>)
    requires
        is_signature_segment(seg),
        after.len() == 0 || after[0] == '.',
    ensures
        parse_segments(segment_signature(seg) + after) == if after.len() > 0 && after[0] == '.' {
            match parse_segments(after.drop_first()) {
                Ok(segs) => Ok(seq![seg] + segs),
                Err(e) => Err(e),
            }
        } else {
            Ok(seq![seg])
        },
    decreases seg,
{
    let s = segment_signature(seg) + after;
    let n = seg.name;
    lemma_occurs_whole(segment_signature(seg), after);
    if seg.args.len() == 0 {
        lemma_occurs_whole(n, after);
        assert(s == n + after);
    } else {
        lemma_occurs_split(s, 0, n + seq!['<'] + args_signature(seg.args), seq!['>']);
        lemma_occurs_split(s, 0, n, seq!['<'] + args_signature(seg.args));
    }
    lemma_segment_name_end_plain(s, 0, n);
    let k = n.len() as int;
    assert(segment_name_end(s, 0) == k) by {
        if k < s.len() {
            if seg.args.len() == 0 {
                assert(s[k] == after[0]);
            } else {
                assert(s[k + 0] == (seq!['<'] + args_signature(seg.args))[0]);
            }
        }
    }
    assert(s.take(k) =~= n);
    let rest = s.skip(k);
    if seg.args.len() == 0 {
        assert(rest =~= after);
        assert(seg.args =~= Seq::<SpecTypeArg>::empty());
        assert(SpecSegment { name: n, args: Seq::empty() } == seg);
    } else {
        assert(rest[0] == '<');
        assert(rest.drop_first() =~= args_signature(seg.args) + seq!['>'] + after);
        lemma_args_signature_round_trip(seg.args, after);
    }
}

/// Reading the signatures of inner-class segments, the first without its `.`, gives back
/// the segments.
proof fn lemma_suffix_signature_round_trip(segs: Seq<SpecSegment>)
    requires
        is_signature_suffix(segs),
        segs.len() > 0,
    ensures
        parse_segments(segment_signature(segs[0]) + suffix_signature(segs.drop_first())) == Ok::<
            Seq<SpecSegment>,
            TypeDescriptorErr,
        >(segs),
    decreases segs,
{
    let tail = segs.drop_first();
    let c = suffix_signature(tail);
    lemma_segment_step(segs[0], c);
    if tail.len() > 0 {
        assert(c.drop_first() =~= segment_signature(tail[0]) + suffix_signature(tail.drop_first()));
        lemma_suffix_signature_round_trip(tail);
        assert(seq![segs[0]] + tail =~= segs);
    } else {
        assert(seq![segs[0]] =~= segs);
    }
}

} // verus!
