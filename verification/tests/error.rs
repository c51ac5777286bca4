use jvm_common::error::{
    ClassFormatErr, InstructionErr, LinkageError, MethodDescriptorErr, SignatureErr,
    TypeDescriptorErr,
};
use jvm_common::utils::cursor::CursorError;

#[test]
fn error_conversions_wrap_the_cause() {
    assert_eq!(
        SignatureErr::from(TypeDescriptorErr::UnexpectedEnd),
        SignatureErr::Type(TypeDescriptorErr::UnexpectedEnd)
    );
    assert_eq!(
        InstructionErr::from(CursorError::UnexpectedEof),
        InstructionErr::Cursor(CursorError::UnexpectedEof)
    );
    assert_eq!(
        ClassFormatErr::from(CursorError::UnexpectedEof),
        ClassFormatErr::Cursor(CursorError::UnexpectedEof)
    );
    assert_eq!(
        ClassFormatErr::from(SignatureErr::MissingSuper),
        ClassFormatErr::Signature(SignatureErr::MissingSuper)
    );
    assert_eq!(
        ClassFormatErr::from(MethodDescriptorErr::TrailingCharacters),
        ClassFormatErr::MethodDescriptor(MethodDescriptorErr::TrailingCharacters)
    );
    assert!(matches!(
        LinkageError::from(InstructionErr::UnsupportedOpCode(1)),
        LinkageError::Instruction(InstructionErr::UnsupportedOpCode(1))
    ));
    assert!(matches!(
        LinkageError::from(CursorError::UnexpectedEof),
        LinkageError::Cursor(CursorError::UnexpectedEof)
    ));
    assert!(matches!(
        LinkageError::from(ClassFormatErr::TrailingBytes),
        LinkageError::ClassFile(ClassFormatErr::TrailingBytes)
    ));
}
