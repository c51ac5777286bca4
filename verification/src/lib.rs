//! Descriptors, signatures, bytecode and small runtime values of the Java Virtual Machine.
pub mod access;
pub mod chars;
pub mod descriptor;
pub mod error;
pub mod grammar;
pub mod instruction;
pub mod jtype;
pub mod signature;
pub mod text;
pub mod utils;

use vstd::prelude::*;

use crate::error::{JavaExceptionFromJvm, JvmError};

verus! {

/// The address of an object on the heap.
pub type HeapRef = usize;

/// A stack operand, local variable, argument or static field value.
/// `Float` and `Double` hold the IEEE 754 bit patterns of the value.
#[derive(Debug, Clone, Copy, PartialEq, Eq, Structural)]
pub enum Value {
    Integer(i32),
    Long(i64),
    Float(u32),
    Double(u64),
    Ref(HeapRef),
    Null,
}

impl Value {
    /// The address held by a reference; `null` is a `NullPointerException`.
    pub fn as_obj_ref(&self) -> (r: Result<HeapRef, JvmError>)
        ensures
            match *self {
                Value::Ref(addr) => r == Ok::<HeapRef, JvmError>(addr),
                Value::Null => r == Err::<HeapRef, JvmError>(
                    JvmError::JavaException(JavaExceptionFromJvm::NullPointerException(None)),
                ),
                _ => r matches Err(JvmError::Todo(msg)) && msg@
                    == "Value::as_obj_ref called on non-reference value"@,
            },
    {
        match self {
            Value::Ref(addr) => Ok(*addr),
            Value::Null => Err(
                JvmError::JavaException(JavaExceptionFromJvm::NullPointerException(None)),
            ),
            _ => Err(JvmError::Todo("Value::as_obj_ref called on non-reference value".to_owned())),
        }
    }

    /// The value held by an `int`.
    pub fn as_int(&self) -> (r: Result<i32, JvmError>)
        ensures
            match *self {
                Value::Integer(v) => r == Ok::<i32, JvmError>(v),
                _ => r matches Err(JvmError::Todo(msg)) && msg@
                    == "Value::as_int called on non-integer value"@,
            },
    {
        match self {
            Value::Integer(v) => Ok(*v),
            _ => Err(JvmError::Todo("Value::as_int called on non-integer value".to_owned())),
        }
    }
}

} // verus!
