use vstd::prelude::*;

use crate::utils::cursor::CursorError;

verus! {

#[derive(Debug, PartialEq, Eq)]
pub enum SignatureErr {
    UnexpectedEnd,
    MissingParamsOpenParen,
    MissingParamsCloseParen,
    TrailingCharacters,
    InvalidIdentifier,
    MissingSuper,
    InvalidBound,
    Type(TypeDescriptorErr),
    InvalidSuperClassType,
}

impl From<TypeDescriptorErr> for SignatureErr {
    fn from(value: TypeDescriptorErr) -> Self {
        SignatureErr::Type(value)
    }
}

impl vstd::std_specs::convert::FromSpecImpl<TypeDescriptorErr> for SignatureErr {
    open spec fn obeys_from_spec() -> bool {
        true
    }

    open spec fn from_spec(value: TypeDescriptorErr) -> Self {
        SignatureErr::Type(value)
    }
}

#[derive(Debug, Clone, Copy, PartialEq, Eq, Structural)]
pub enum TypeDescriptorErr {
    UnexpectedEnd,
    InvalidType(char),
    InvalidObjectRef,
}

#[derive(Debug, PartialEq, Eq)]
pub enum MethodDescriptorErr {
    ShouldStartWithParentheses(String),
    MissingClosingParenthesis(String),
    TrailingCharacters,
    Type(String, TypeDescriptorErr),
}

/// The model of a `MethodDescriptorErr`, with the descriptor as a sequence of characters.
pub enum SpecMethodDescriptorErr {
    ShouldStartWithParentheses(Seq<char>),
    MissingClosingParenthesis(Seq<char>),
    TrailingCharacters,
    Type(Seq<char>, TypeDescriptorErr),
}

impl View for MethodDescriptorErr {
    type V = SpecMethodDescriptorErr;

    open spec fn view(&self) -> SpecMethodDescriptorErr {
        match self {
            MethodDescriptorErr::ShouldStartWithParentheses(d) => SpecMethodDescriptorErr::ShouldStartWithParentheses(d@),
            MethodDescriptorErr::MissingClosingParenthesis(d) => SpecMethodDescriptorErr::MissingClosingParenthesis(d@),
            MethodDescriptorErr::TrailingCharacters => SpecMethodDescriptorErr::TrailingCharacters,
            MethodDescriptorErr::Type(d, e) => SpecMethodDescriptorErr::Type(d@, *e),
        }
    }
}

#[derive(Debug, PartialEq, Eq)]
pub enum InstructionErr {
    UnsupportedOpCode(u8),
    UnknownArrayType(u8),
    Cursor(CursorError),
    UnexpectedEof,
}

impl From<CursorError> for InstructionErr {
    fn from(value: CursorError) -> Self {
        InstructionErr::Cursor(value)
    }
}

impl vstd::std_specs::convert::FromSpecImpl<CursorError> for InstructionErr {
    open spec fn obeys_from_spec() -> bool {
        true
    }

    open spec fn from_spec(value: CursorError) -> Self {
        InstructionErr::Cursor(value)
    }
}

#[derive(Debug)]
pub enum LinkageError {
    Instruction(InstructionErr),
    UnsupportedOpCode(u8),
    DuplicatedCodeAttr,
    DuplicatedSignatureAttr,
    DuplicatedStackMapTable,
    DuplicatedExceptionAttribute,
    DuplicatedRuntimeVisibleAnnotationsAttr,
    DuplicatedRuntimeInvisibleAnnotationsAttr,
    CodeAttrIsAmbiguousForNative,
    RuntimeConstantPool(RuntimePoolError),
    Cursor(CursorError),
    ClassFile(ClassFormatErr),
    DuplicatedClassInMethod,
    MethodClassIsNotSet,
}

impl From<InstructionErr> for LinkageError {
    fn from(value: InstructionErr) -> Self {
        LinkageError::Instruction(value)
    }
}

impl vstd::std_specs::convert::FromSpecImpl<InstructionErr> for LinkageError {
    open spec fn obeys_from_spec() -> bool {
        true
    }

    open spec fn from_spec(value: InstructionErr) -> Self {
        LinkageError::Instruction(value)
    }
}

impl From<CursorError> for LinkageError {
    fn from(value: CursorError) -> Self {
        LinkageError::Cursor(value)
    }
}

impl vstd::std_specs::convert::FromSpecImpl<CursorError> for LinkageError {
    open spec fn obeys_from_spec() -> bool {
        true
    }

    open spec fn from_spec(value: CursorError) -> Self {
        LinkageError::Cursor(value)
    }
}

impl From<RuntimePoolError> for LinkageError {
    fn from(value: RuntimePoolError) -> Self {
        LinkageError::RuntimeConstantPool(value)
    }
}

impl vstd::std_specs::convert::FromSpecImpl<RuntimePoolError> for LinkageError {
    open spec fn obeys_from_spec() -> bool {
        true
    }

    open spec fn from_spec(value: RuntimePoolError) -> Self {
        LinkageError::RuntimeConstantPool(value)
    }
}

impl From<ClassFormatErr> for LinkageError {
    fn from(value: ClassFormatErr) -> Self {
        LinkageError::ClassFile(value)
    }
}

impl vstd::std_specs::convert::FromSpecImpl<ClassFormatErr> for LinkageError {
    open spec fn obeys_from_spec() -> bool {
        true
    }

    open spec fn from_spec(value: ClassFormatErr) -> Self {
        LinkageError::ClassFile(value)
    }
}

#[derive(Debug)]
pub enum RuntimePoolError {
    MethodDescriptor(MethodDescriptorErr),
    TypeDescriptor(TypeDescriptorErr),
    WrongIndex(u16),
    TypeError(u16, String, String),
    TryingToAccessUnresolved(u16, String),
}

#[derive(Debug, PartialEq, Eq)]
pub enum ClassFormatErr {
    Cursor(CursorError),
    WrongMagic(u32),
    TrailingBytes,
    UnknownTag(u8),
    /// First u16 is index, second is expected type, third is actual type
    TypeError(u16, String, String),
    ConstantNotFound(u16),
    UnknownStackFrameType(u8),
    UnknownAttribute(String),
    AttributeIsNotShared(String),
    InvalidMethodHandleKind(u8),
    Signature(SignatureErr),
    MethodDescriptor(MethodDescriptorErr),
}

impl From<CursorError> for ClassFormatErr {
    fn from(value: CursorError) -> Self {
        ClassFormatErr::Cursor(value)
    }
}

impl vstd::std_specs::convert::FromSpecImpl<CursorError> for ClassFormatErr {
    open spec fn obeys_from_spec() -> bool {
        true
    }

    open spec fn from_spec(value: CursorError) -> Self {
        ClassFormatErr::Cursor(value)
    }
}

impl From<SignatureErr> for ClassFormatErr {
    fn from(value: SignatureErr) -> Self {
        ClassFormatErr::Signature(value)
    }
}

impl vstd::std_specs::convert::FromSpecImpl<SignatureErr> for ClassFormatErr {
    open spec fn obeys_from_spec() -> bool {
        true
    }

    open spec fn from_spec(value: SignatureErr) -> Self {
        ClassFormatErr::Signature(value)
    }
}

impl From<MethodDescriptorErr> for ClassFormatErr {
    fn from(value: MethodDescriptorErr) -> Self {
        ClassFormatErr::MethodDescriptor(value)
    }
}

impl vstd::std_specs::convert::FromSpecImpl<MethodDescriptorErr> for ClassFormatErr {
    open spec fn obeys_from_spec() -> bool {
        true
    }

    open spec fn from_spec(value: MethodDescriptorErr) -> Self {
        ClassFormatErr::MethodDescriptor(value)
    }
}

/// An exception that the virtual machine itself throws.
#[derive(Debug, PartialEq, Eq)]
pub enum JavaExceptionFromJvm {
    NullPointerException(Option<String>),
}

/// An error of the virtual machine at run time.
#[derive(Debug, PartialEq, Eq)]
pub enum JvmError {
    JavaException(JavaExceptionFromJvm),
    Todo(String),
}

} // verus!
