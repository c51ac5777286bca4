//! JVM bytecode instructions, the subset this crate decodes.
use vstd::prelude::*;

use crate::error::InstructionErr;
use crate::utils::cursor::{be_value, signed, ByteCursor, ByteOrder, CursorError, CursorView};

verus! {

/// The opcodes this crate decodes; `code` gives the byte of each.
#[derive(Debug, Clone, Copy, PartialEq, Eq, Structural)]
pub enum Opcode {
    Aload,
    Aload0,
    Aload1,
    Aload2,
    Aload3,
    Astore,
    Astore0,
    Astore1,
    Astore2,
    Astore3,
    Athrow,
    Checkcast,
    Dup,
    Getstatic,
    Goto,
    IconstM1,
    Iconst0,
    Iconst1,
    Iconst2,
    Iconst3,
    Iconst4,
    Iconst5,
    Iload0,
    Iload1,
    Iload2,
    Iload3,
    IfAcmpne,
    Ifeq,
    Ifne,
    Iflt,
    Ifge,
    Ifgt,
    Ifle,
    IfIcmpeq,
    IfIcmpne,
    IfIcmplt,
    IfIcmpge,
    IfIcmpgt,
    IfIcmple,
    Instanceof,
    Invokespecial,
    Invokestatic,
    Invokevirtual,
    Ireturn,
    Lcmp,
    Lconst0,
    Lconst1,
    Lload0,
    Lload1,
    Lload2,
    Lload3,
    Lstore0,
    Lstore1,
    Lstore2,
    Lstore3,
    Ldc,
    Ldc2w,
    New,
    Pop,
    Areturn,
    Return,
    Ladd,
}

/// The byte of an opcode.
pub open spec fn opcode_code(op: Opcode) -> u8 {
    match op {
        Opcode::Aload => 0x19,
        Opcode::Aload0 => 0x2A,
        Opcode::Aload1 => 0x2B,
        Opcode::Aload2 => 0x2C,
        Opcode::Aload3 => 0x2D,
        Opcode::Astore => 0x3A,
        Opcode::Astore0 => 0x4B,
        Opcode::Astore1 => 0x4C,
        Opcode::Astore2 => 0x4D,
        Opcode::Astore3 => 0x4E,
        Opcode::Athrow => 0xBF,
        Opcode::Checkcast => 0xC0,
        Opcode::Dup => 0x59,
        Opcode::Getstatic => 0xB2,
        Opcode::Goto => 0xA7,
        Opcode::IconstM1 => 0x02,
        Opcode::Iconst0 => 0x03,
        Opcode::Iconst1 => 0x04,
        Opcode::Iconst2 => 0x05,
        Opcode::Iconst3 => 0x06,
        Opcode::Iconst4 => 0x07,
        Opcode::Iconst5 => 0x08,
        Opcode::Iload0 => 0x1A,
        Opcode::Iload1 => 0x1B,
        Opcode::Iload2 => 0x1C,
        Opcode::Iload3 => 0x1D,
        Opcode::IfAcmpne => 0xA6,
        Opcode::Ifeq => 0x99,
        Opcode::Ifne => 0x9A,
        Opcode::Iflt => 0x9B,
        Opcode::Ifge => 0x9C,
        Opcode::Ifgt => 0x9D,
        Opcode::Ifle => 0x9E,
        Opcode::IfIcmpeq => 0x9F,
        Opcode::IfIcmpne => 0xA0,
        Opcode::IfIcmplt => 0xA1,
        Opcode::IfIcmpge => 0xA2,
        Opcode::IfIcmpgt => 0xA3,
        Opcode::IfIcmple => 0xA4,
        Opcode::Instanceof => 0xC1,
        Opcode::Invokespecial => 0xB7,
        Opcode::Invokestatic => 0xB8,
        Opcode::Invokevirtual => 0xB6,
        Opcode::Ireturn => 0xAC,
        Opcode::Lcmp => 0x94,
        Opcode::Lconst0 => 0x09,
        Opcode::Lconst1 => 0x0A,
        Opcode::Lload0 => 0x1E,
        Opcode::Lload1 => 0x1F,
        Opcode::Lload2 => 0x20,
        Opcode::Lload3 => 0x21,
        Opcode::Lstore0 => 0x3F,
        Opcode::Lstore1 => 0x40,
        Opcode::Lstore2 => 0x41,
        Opcode::Lstore3 => 0x42,
        Opcode::Ldc => 0x12,
        Opcode::Ldc2w => 0x14,
        Opcode::New => 0xBB,
        Opcode::Pop => 0x57,
        Opcode::Areturn => 0xB0,
        Opcode::Return => 0xB1,
        Opcode::Ladd => 0x61,
    }
}

/// The opcode with the byte `b`, if this crate decodes it.
pub open spec fn opcode_of(b: u8) -> Option<Opcode> {
    if b == 0x19 {
        Some(Opcode::Aload)
    } else if b == 0x2A {
        Some(Opcode::Aload0)
    } else if b == 0x2B {
        Some(Opcode::Aload1)
    } else if b == 0x2C {
        Some(Opcode::Aload2)
    } else if b == 0x2D {
        Some(Opcode::Aload3)
    } else if b == 0x3A {
        Some(Opcode::Astore)
    } else if b == 0x4B {
        Some(Opcode::Astore0)
    } else if b == 0x4C {
        Some(Opcode::Astore1)
    } else if b == 0x4D {
        Some(Opcode::Astore2)
    } else if b == 0x4E {
        Some(Opcode::Astore3)
    } else if b == 0xBF {
        Some(Opcode::Athrow)
    } else if b == 0xC0 {
        Some(Opcode::Checkcast)
    } else if b == 0x59 {
        Some(Opcode::Dup)
    } else if b == 0xB2 {
        Some(Opcode::Getstatic)
    } else if b == 0xA7 {
        Some(Opcode::Goto)
    } else if b == 0x02 {
        Some(Opcode::IconstM1)
    } else if b == 0x03 {
        Some(Opcode::Iconst0)
    } else if b == 0x04 {
        Some(Opcode::Iconst1)
    } else if b == 0x05 {
        Some(Opcode::Iconst2)
    } else if b == 0x06 {
        Some(Opcode::Iconst3)
    } else if b == 0x07 {
        Some(Opcode::Iconst4)
    } else if b == 0x08 {
        Some(Opcode::Iconst5)
    } else if b == 0x1A {
        Some(Opcode::Iload0)
    } else if b == 0x1B {
        Some(Opcode::Iload1)
    } else if b == 0x1C {
        Some(Opcode::Iload2)
    } else if b == 0x1D {
        Some(Opcode::Iload3)
    } else if b == 0xA6 {
        Some(Opcode::IfAcmpne)
    } else if b == 0x99 {
        Some(Opcode::Ifeq)
    } else if b == 0x9A {
        Some(Opcode::Ifne)
    } else if b == 0x9B {
        Some(Opcode::Iflt)
    } else if b == 0x9C {
        Some(Opcode::Ifge)
    } else if b == 0x9D {
        Some(Opcode::Ifgt)
    } else if b == 0x9E {
        Some(Opcode::Ifle)
    } else if b == 0x9F {
        Some(Opcode::IfIcmpeq)
    } else if b == 0xA0 {
        Some(Opcode::IfIcmpne)
    } else if b == 0xA1 {
        Some(Opcode::IfIcmplt)
    } else if b == 0xA2 {
        Some(Opcode::IfIcmpge)
    } else if b == 0xA3 {
        Some(Opcode::IfIcmpgt)
    } else if b == 0xA4 {
        Some(Opcode::IfIcmple)
    } else if b == 0xC1 {
        Some(Opcode::Instanceof)
    } else if b == 0xB7 {
        Some(Opcode::Invokespecial)
    } else if b == 0xB8 {
        Some(Opcode::Invokestatic)
    } else if b == 0xB6 {
        Some(Opcode::Invokevirtual)
    } else if b == 0xAC {
        Some(Opcode::Ireturn)
    } else if b == 0x94 {
        Some(Opcode::Lcmp)
    } else if b == 0x09 {
        Some(Opcode::Lconst0)
    } else if b == 0x0A {
        Some(Opcode::Lconst1)
    } else if b == 0x1E {
        Some(Opcode::Lload0)
    } else if b == 0x1F {
        Some(Opcode::Lload1)
    } else if b == 0x20 {
        Some(Opcode::Lload2)
    } else if b == 0x21 {
        Some(Opcode::Lload3)
    } else if b == 0x3F {
        Some(Opcode::Lstore0)
    } else if b == 0x40 {
        Some(Opcode::Lstore1)
    } else if b == 0x41 {
        Some(Opcode::Lstore2)
    } else if b == 0x42 {
        Some(Opcode::Lstore3)
    } else if b == 0x12 {
        Some(Opcode::Ldc)
    } else if b == 0x14 {
        Some(Opcode::Ldc2w)
    } else if b == 0xBB {
        Some(Opcode::New)
    } else if b == 0x57 {
        Some(Opcode::Pop)
    } else if b == 0xB0 {
        Some(Opcode::Areturn)
    } else if b == 0xB1 {
        Some(Opcode::Return)
    } else if b == 0x61 {
        Some(Opcode::Ladd)
    } else {
        None
    }
}

impl Opcode {
    /// The byte of this opcode.
    pub fn code(&self) -> (r: u8)
        ensures
            r == opcode_code(*self),
    {
        match self {
            Opcode::Aload => 0x19,
            Opcode::Aload0 => 0x2A,
            Opcode::Aload1 => 0x2B,
            Opcode::Aload2 => 0x2C,
            Opcode::Aload3 => 0x2D,
            Opcode::Astore => 0x3A,
            Opcode::Astore0 => 0x4B,
            Opcode::Astore1 => 0x4C,
            Opcode::Astore2 => 0x4D,
            Opcode::Astore3 => 0x4E,
            Opcode::Athrow => 0xBF,
            Opcode::Checkcast => 0xC0,
            Opcode::Dup => 0x59,
            Opcode::Getstatic => 0xB2,
            Opcode::Goto => 0xA7,
            Opcode::IconstM1 => 0x02,
            Opcode::Iconst0 => 0x03,
            Opcode::Iconst1 => 0x04,
            Opcode::Iconst2 => 0x05,
            Opcode::Iconst3 => 0x06,
            Opcode::Iconst4 => 0x07,
            Opcode::Iconst5 => 0x08,
            Opcode::Iload0 => 0x1A,
            Opcode::Iload1 => 0x1B,
            Opcode::Iload2 => 0x1C,
            Opcode::Iload3 => 0x1D,
            Opcode::IfAcmpne => 0xA6,
            Opcode::Ifeq => 0x99,
            Opcode::Ifne => 0x9A,
            Opcode::Iflt => 0x9B,
            Opcode::Ifge => 0x9C,
            Opcode::Ifgt => 0x9D,
            Opcode::Ifle => 0x9E,
            Opcode::IfIcmpeq => 0x9F,
            Opcode::IfIcmpne => 0xA0,
            Opcode::IfIcmplt => 0xA1,
            Opcode::IfIcmpge => 0xA2,
            Opcode::IfIcmpgt => 0xA3,
            Opcode::IfIcmple => 0xA4,
            Opcode::Instanceof => 0xC1,
            Opcode::Invokespecial => 0xB7,
            Opcode::Invokestatic => 0xB8,
            Opcode::Invokevirtual => 0xB6,
            Opcode::Ireturn => 0xAC,
            Opcode::Lcmp => 0x94,
            Opcode::Lconst0 => 0x09,
            Opcode::Lconst1 => 0x0A,
            Opcode::Lload0 => 0x1E,
            Opcode::Lload1 => 0x1F,
            Opcode::Lload2 => 0x20,
            Opcode::Lload3 => 0x21,
            Opcode::Lstore0 => 0x3F,
            Opcode::Lstore1 => 0x40,
            Opcode::Lstore2 => 0x41,
            Opcode::Lstore3 => 0x42,
            Opcode::Ldc => 0x12,
            Opcode::Ldc2w => 0x14,
            Opcode::New => 0xBB,
            Opcode::Pop => 0x57,
            Opcode::Areturn => 0xB0,
            Opcode::Return => 0xB1,
            Opcode::Ladd => 0x61,
        }
    }
}

impl TryFrom<u8> for Opcode {
    /// The byte that is no opcode this crate decodes.
    type Error = u8;

    fn try_from(b: u8) -> (r: Result<Self, Self::Error>) {
        match b {
            0x19 => Ok(Opcode::Aload),
            0x2A => Ok(Opcode::Aload0),
            0x2B => Ok(Opcode::Aload1),
            0x2C => Ok(Opcode::Aload2),
            0x2D => Ok(Opcode::Aload3),
            0x3A => Ok(Opcode::Astore),
            0x4B => Ok(Opcode::Astore0),
            0x4C => Ok(Opcode::Astore1),
            0x4D => Ok(Opcode::Astore2),
            0x4E => Ok(Opcode::Astore3),
            0xBF => Ok(Opcode::Athrow),
            0xC0 => Ok(Opcode::Checkcast),
            0x59 => Ok(Opcode::Dup),
            0xB2 => Ok(Opcode::Getstatic),
            0xA7 => Ok(Opcode::Goto),
            0x02 => Ok(Opcode::IconstM1),
            0x03 => Ok(Opcode::Iconst0),
            0x04 => Ok(Opcode::Iconst1),
            0x05 => Ok(Opcode::Iconst2),
            0x06 => Ok(Opcode::Iconst3),
            0x07 => Ok(Opcode::Iconst4),
            0x08 => Ok(Opcode::Iconst5),
            0x1A => Ok(Opcode::Iload0),
            0x1B => Ok(Opcode::Iload1),
            0x1C => Ok(Opcode::Iload2),
            0x1D => Ok(Opcode::Iload3),
            0xA6 => Ok(Opcode::IfAcmpne),
            0x99 => Ok(Opcode::Ifeq),
            0x9A => Ok(Opcode::Ifne),
            0x9B => Ok(Opcode::Iflt),
            0x9C => Ok(Opcode::Ifge),
            0x9D => Ok(Opcode::Ifgt),
            0x9E => Ok(Opcode::Ifle),
            0x9F => Ok(Opcode::IfIcmpeq),
            0xA0 => Ok(Opcode::IfIcmpne),
            0xA1 => Ok(Opcode::IfIcmplt),
            0xA2 => Ok(Opcode::IfIcmpge),
            0xA3 => Ok(Opcode::IfIcmpgt),
            0xA4 => Ok(Opcode::IfIcmple),
            0xC1 => Ok(Opcode::Instanceof),
            0xB7 => Ok(Opcode::Invokespecial),
            0xB8 => Ok(Opcode::Invokestatic),
            0xB6 => Ok(Opcode::Invokevirtual),
            0xAC => Ok(Opcode::Ireturn),
            0x94 => Ok(Opcode::Lcmp),
            0x09 => Ok(Opcode::Lconst0),
            0x0A => Ok(Opcode::Lconst1),
            0x1E => Ok(Opcode::Lload0),
            0x1F => Ok(Opcode::Lload1),
            0x20 => Ok(Opcode::Lload2),
            0x21 => Ok(Opcode::Lload3),
            0x3F => Ok(Opcode::Lstore0),
            0x40 => Ok(Opcode::Lstore1),
            0x41 => Ok(Opcode::Lstore2),
            0x42 => Ok(Opcode::Lstore3),
            0x12 => Ok(Opcode::Ldc),
            0x14 => Ok(Opcode::Ldc2w),
            0xBB => Ok(Opcode::New),
            0x57 => Ok(Opcode::Pop),
            0xB0 => Ok(Opcode::Areturn),
            0xB1 => Ok(Opcode::Return),
            0x61 => Ok(Opcode::Ladd),
            _ => Err(b),
        }
    }
}

impl vstd::std_specs::convert::TryFromSpecImpl<u8> for Opcode {
    open spec fn obeys_try_from_spec() -> bool {
        true
    }

    open spec fn try_from_spec(b: u8) -> Result<Self, Self::Error> {
        match opcode_of(b) {
            Some(op) => Ok(op),
            None => Err(b),
        }
    }
}

/// Every opcode is read back from its byte, and a byte names an opcode only if it is
/// that opcode's byte.
pub proof fn lemma_opcode_code_round_trip(op: Opcode, b: u8)
    ensures
        opcode_of(opcode_code(op)) == Some(op),
        opcode_of(b) matches Some(o) ==> opcode_code(o) == b,
{
}

#[derive(Debug, Clone, Copy, PartialEq, Eq, Structural)]
pub enum Instruction {
    Aload(u8),
    Aload0,
    Aload1,
    Aload2,
    Aload3,
    Astore(u8),
    Astore0,
    Astore1,
    Astore2,
    Astore3,
    Athrow,
    Checkcast(u16),
    Dup,
    Getstatic(u16),
    Goto(i16),
    IconstM1,
    Iconst0,
    Iconst1,
    Iconst2,
    Iconst3,
    Iconst4,
    Iconst5,
    Iload0,
    Iload1,
    Iload2,
    Iload3,
    Instanceof(u16),
    IfAcmpNe(i16),
    Ifeq(i16),
    Ifne(i16),
    Iflt(i16),
    Ifge(i16),
    Ifgt(i16),
    Ifle(i16),
    IfIcmpeq(i16),
    IfIcmpne(i16),
    IfIcmplt(i16),
    IfIcmpge(i16),
    IfIcmpgt(i16),
    IfIcmple(i16),
    Ireturn,
    Invokespecial(u16),
    Invokestatic(u16),
    Invokevirtual(u16),
    Lcmp,
    Lconst0,
    Lconst1,
    Lload0,
    Lload1,
    Lload2,
    Lload3,
    Lstore0,
    Lstore1,
    Lstore2,
    Lstore3,
    Ldc(u16),
    Ldc2w(u16),
    New(u16),
    Pop,
    Return,
    Areturn,
    Ladd,
}

/// The number of operand bytes that follow an opcode.
pub open spec fn operand_size(op: Opcode) -> int {
    match op {
        Opcode::Astore | Opcode::Aload | Opcode::Ldc => 1,
        Opcode::IfIcmpeq
        | Opcode::IfIcmpne
        | Opcode::IfIcmplt
        | Opcode::IfIcmpge
        | Opcode::IfIcmpgt
        | Opcode::IfIcmple
        | Opcode::Ldc2w
        | Opcode::Checkcast
        | Opcode::Invokespecial
        | Opcode::Invokestatic
        | Opcode::Invokevirtual
        | Opcode::Instanceof
        | Opcode::Getstatic
        | Opcode::Goto
        | Opcode::IfAcmpne
        | Opcode::Ifeq
        | Opcode::Ifne
        | Opcode::Iflt
        | Opcode::Ifge
        | Opcode::Ifgt
        | Opcode::Ifle
        | Opcode::New => 2,
        _ => 0,
    }
}

/// A two-byte unsigned operand, most significant byte first.
pub open spec fn u16_operand(operands: Seq<u8>) -> u16 {
    be_value(operands) as u16
}

/// A two-byte signed operand, most significant byte first.
pub open spec fn i16_operand(operands: Seq<u8>) -> i16 {
    signed(be_value(operands), 16) as i16
}

/// A one-byte operand widened to 16 bits.
pub open spec fn wide_operand(b: u8) -> u16 {
    b as u16
}

/// The result of reading an operand, with a cursor error as an instruction error.
fn operand<T>(r: Result<T, CursorError>) -> (out: Result<T, InstructionErr>)
    ensures
        match r {
            Ok(v) => out == Ok::<T, InstructionErr>(v),
            Err(e) => out == Err::<T, InstructionErr>(InstructionErr::Cursor(e)),
        },
{
    match r {
        Ok(v) => Ok(v),
        Err(e) => Err(InstructionErr::from(e)),
    }
}

/// Widens a one-byte operand to 16 bits.
fn widen(b: u8) -> (r: u16)
    ensures
        r == wide_operand(b),
{
    b as u16
}

/// The instruction that an opcode and its operand bytes make: a `u8` operand is one byte,
/// a `u16` or `i16` operand two bytes, most significant first.
pub open spec fn instruction_of(op: Opcode, operands: Seq<u8>) -> Instruction {
    match op {
        Opcode::IfIcmpeq => Instruction::IfIcmpeq(i16_operand(operands)),
        Opcode::IfIcmpne => Instruction::IfIcmpne(i16_operand(operands)),
        Opcode::IfIcmplt => Instruction::IfIcmplt(i16_operand(operands)),
        Opcode::IfIcmpge => Instruction::IfIcmpge(i16_operand(operands)),
        Opcode::IfIcmpgt => Instruction::IfIcmpgt(i16_operand(operands)),
        Opcode::IfIcmple => Instruction::IfIcmple(i16_operand(operands)),
        Opcode::Ldc2w => Instruction::Ldc2w(u16_operand(operands)),
        Opcode::Astore => Instruction::Astore(operands[0]),
        Opcode::Aload => Instruction::Aload(operands[0]),
        Opcode::Checkcast => Instruction::Checkcast(u16_operand(operands)),
        Opcode::Invokespecial => Instruction::Invokespecial(u16_operand(operands)),
        Opcode::Invokestatic => Instruction::Invokestatic(u16_operand(operands)),
        Opcode::Invokevirtual => Instruction::Invokevirtual(u16_operand(operands)),
        Opcode::Instanceof => Instruction::Instanceof(u16_operand(operands)),
        Opcode::Getstatic => Instruction::Getstatic(u16_operand(operands)),
        Opcode::Goto => Instruction::Goto(i16_operand(operands)),
        Opcode::Ldc => Instruction::Ldc(wide_operand(operands[0])),
        Opcode::IfAcmpne => Instruction::IfAcmpNe(i16_operand(operands)),
        Opcode::Ifeq => Instruction::Ifeq(i16_operand(operands)),
        Opcode::Ifne => Instruction::Ifne(i16_operand(operands)),
        Opcode::Iflt => Instruction::Iflt(i16_operand(operands)),
        Opcode::Ifge => Instruction::Ifge(i16_operand(operands)),
        Opcode::Ifgt => Instruction::Ifgt(i16_operand(operands)),
        Opcode::Ifle => Instruction::Ifle(i16_operand(operands)),
        Opcode::New => Instruction::New(u16_operand(operands)),
        Opcode::Astore0 => Instruction::Astore0,
        Opcode::Astore1 => Instruction::Astore1,
        Opcode::Astore2 => Instruction::Astore2,
        Opcode::Astore3 => Instruction::Astore3,
        Opcode::Aload0 => Instruction::Aload0,
        Opcode::Aload1 => Instruction::Aload1,
        Opcode::Aload2 => Instruction::Aload2,
        Opcode::Aload3 => Instruction::Aload3,
        Opcode::Athrow => Instruction::Athrow,
        Opcode::Return => Instruction::Return,
        Opcode::IconstM1 => Instruction::IconstM1,
        Opcode::Iconst0 => Instruction::Iconst0,
        Opcode::Iconst1 => Instruction::Iconst1,
        Opcode::Iconst2 => Instruction::Iconst2,
        Opcode::Iconst3 => Instruction::Iconst3,
        Opcode::Iconst4 => Instruction::Iconst4,
        Opcode::Iconst5 => Instruction::Iconst5,
        Opcode::Areturn => Instruction::Areturn,
        Opcode::Ireturn => Instruction::Ireturn,
        Opcode::Lconst0 => Instruction::Lconst0,
        Opcode::Lconst1 => Instruction::Lconst1,
        Opcode::Lload0 => Instruction::Lload0,
        Opcode::Lload1 => Instruction::Lload1,
        Opcode::Lload2 => Instruction::Lload2,
        Opcode::Lload3 => Instruction::Lload3,
        Opcode::Dup => Instruction::Dup,
        Opcode::Lcmp => Instruction::Lcmp,
        Opcode::Pop => Instruction::Pop,
        Opcode::Iload0 => Instruction::Iload0,
        Opcode::Iload1 => Instruction::Iload1,
        Opcode::Iload2 => Instruction::Iload2,
        Opcode::Iload3 => Instruction::Iload3,
        Opcode::Lstore0 => Instruction::Lstore0,
        Opcode::Lstore1 => Instruction::Lstore1,
        Opcode::Lstore2 => Instruction::Lstore2,
        Opcode::Lstore3 => Instruction::Lstore3,
        Opcode::Ladd => Instruction::Ladd,
    }
}

/// The number of bytes an instruction takes in the code: the opcode and its operands.
pub open spec fn instruction_size(i: Instruction) -> nat {
    match i {
        Instruction::Ldc(_) | Instruction::Astore(_) | Instruction::Aload(_) => 2,
        Instruction::New(_)
        | Instruction::Ldc2w(_)
        | Instruction::Checkcast(_)
        | Instruction::Ifeq(_)
        | Instruction::Ifne(_)
        | Instruction::Iflt(_)
        | Instruction::Ifge(_)
        | Instruction::Ifgt(_)
        | Instruction::Ifle(_)
        | Instruction::IfIcmpeq(_)
        | Instruction::IfIcmpne(_)
        | Instruction::IfIcmplt(_)
        | Instruction::IfIcmpge(_)
        | Instruction::IfIcmpgt(_)
        | Instruction::IfIcmple(_)
        | Instruction::Invokespecial(_)
        | Instruction::Invokestatic(_)
        | Instruction::Invokevirtual(_)
        | Instruction::Instanceof(_)
        | Instruction::Getstatic(_)
        | Instruction::Goto(_)
        | Instruction::IfAcmpNe(_) => 3,
        _ => 1,
    }
}

impl Instruction {
    /// The number of bytes this instruction takes in the code.
    pub fn byte_size(&self) -> (r: u16)
        ensures
            r == instruction_size(*self),
    {
        match self {
            Self::Ldc(_) | Self::Astore(_) | Self::Aload(_) => 2,
            Self::New(_)
            | Self::Ldc2w(_)
            | Self::Checkcast(_)
            | Self::Ifeq(_)
            | Self::Ifne(_)
            | Self::Iflt(_)
            | Self::Ifge(_)
            | Self::Ifgt(_)
            | Self::Ifle(_)
            | Self::IfIcmpeq(_)
            | Self::IfIcmpne(_)
            | Self::IfIcmplt(_)
            | Self::IfIcmpge(_)
            | Self::IfIcmpgt(_)
            | Self::IfIcmple(_)
            | Self::Invokespecial(_)
            | Self::Invokestatic(_)
            | Self::Invokevirtual(_)
            | Self::Instanceof(_)
            | Self::Getstatic(_)
            | Self::Goto(_)
            | Self::IfAcmpNe(_) => 3,
            _ => 1,
        }
    }
}

/// The instructions of a method's code, in order; decoding stops at the first byte that
/// is no supported opcode, or at an instruction whose operands run past the end.
pub open spec fn decode(code: Seq<u8>) -> Result<Seq<Instruction>, InstructionErr>
    decreases code.len(),
{
    if code.len() == 0 {
        Ok(Seq::empty())
    } else {
        match opcode_of(code[0]) {
            None => Err(InstructionErr::UnsupportedOpCode(code[0])),
            Some(op) => {
                let n = operand_size(op);
                if code.len() < 1 + n {
                    Err(InstructionErr::Cursor(CursorError::UnexpectedEof))
                } else {
                    match decode(code.skip(1 + n)) {
                        Ok(rest) => Ok(seq![instruction_of(op, code.subrange(1, 1 + n))] + rest),
                        Err(e) => Err(e),
                    }
                }
            },
        }
    }
}

/// The total size of instructions.
pub open spec fn total_size(instrs: Seq<Instruction>) -> nat
    decreases instrs.len(),
{
    if instrs.len() == 0 {
        0
    } else {
        instruction_size(instrs[0]) + total_size(instrs.drop_first())
    }
}

proof fn lemma_instruction_size(op: Opcode, operands: Seq<u8>)
    ensures
        instruction_size(instruction_of(op, operands)) == 1 + operand_size(op),
{
}

/// The decoded instructions take exactly the bytes of the code.
pub proof fn lemma_decode_sizes(code: Seq<u8>)
    ensures
        decode(code) matches Ok(instrs) ==> total_size(instrs) == code.len(),
    decreases code.len(),
{
    if code.len() > 0 {
        if let Some(op) = opcode_of(code[0]) {
            let n = operand_size(op);
            if code.len() >= 1 + n {
                lemma_decode_sizes(code.skip(1 + n));
                lemma_instruction_size(op, code.subrange(1, 1 + n));
                if let Ok(rest) = decode(code.skip(1 + n)) {
                    let instrs = seq![instruction_of(op, code.subrange(1, 1 + n))] + rest;
                    assert(instrs.drop_first() =~= rest);
                }
            }
        }
    }
}

/// The bytes of an unsigned two-byte operand, most significant first.
pub open spec fn u16_bytes(v: u16) -> Seq<u8> {
    seq![(v / 256) as u8, (v % 256) as u8]
}

/// The bytes of a signed two-byte operand in two's complement, most significant first.
pub open spec fn i16_bytes(v: i16) -> Seq<u8> {
    u16_bytes(v as u16)
}

/// The one byte of an operand held widened to 16 bits.
pub open spec fn narrow_bytes(v: u16) -> Seq<u8> {
    seq![v as u8]
}

proof fn lemma_i16_as_u16(y: i16)
    by (bit_vector)
    ensures
        y >= 0 ==> (y as u16) as int == y as int,
        y < 0 ==> (y as u16) as int == y as int + 65536,
{
}

/// Two operand bytes read as a number and written back are the same bytes, whether the
/// number is taken as unsigned or signed.
proof fn lemma_two_byte_operand(operands: Seq<u8>)
    requires
        operands.len() == 2,
    ensures
        u16_bytes(u16_operand(operands)) == operands,
        i16_bytes(i16_operand(operands)) == operands,
{
    let a = operands[0];
    let b = operands[1];
    assert(operands.drop_last() =~= seq![a]);
    assert(seq![a].drop_last() =~= Seq::<u8>::empty());
    reveal_with_fuel(be_value, 3);
    let x = be_value(operands);
    assert(x == a * 256 + b);
    assert((a * 256 + b) / 256 == a && (a * 256 + b) % 256 == b) by (nonlinear_arith)
        requires
            0 <= a < 256,
            0 <= b < 256,
    ;
    assert(u16_operand(operands) == x);
    assert(u16_bytes(u16_operand(operands)) =~= operands);
    let y = i16_operand(operands);
    lemma_i16_as_u16(y);
    assert(y as u16 == x);
    assert(i16_bytes(y) =~= operands);
}

/// The opcode that an instruction is written with.
pub open spec fn instruction_opcode(i: Instruction) -> Opcode {
    match i {
        Instruction::IfIcmpeq(_) => Opcode::IfIcmpeq,
        Instruction::IfIcmpne(_) => Opcode::IfIcmpne,
        Instruction::IfIcmplt(_) => Opcode::IfIcmplt,
        Instruction::IfIcmpge(_) => Opcode::IfIcmpge,
        Instruction::IfIcmpgt(_) => Opcode::IfIcmpgt,
        Instruction::IfIcmple(_) => Opcode::IfIcmple,
        Instruction::Ldc2w(_) => Opcode::Ldc2w,
        Instruction::Astore(_) => Opcode::Astore,
        Instruction::Aload(_) => Opcode::Aload,
        Instruction::Checkcast(_) => Opcode::Checkcast,
        Instruction::Invokespecial(_) => Opcode::Invokespecial,
        Instruction::Invokestatic(_) => Opcode::Invokestatic,
        Instruction::Invokevirtual(_) => Opcode::Invokevirtual,
        Instruction::Instanceof(_) => Opcode::Instanceof,
        Instruction::Getstatic(_) => Opcode::Getstatic,
        Instruction::Goto(_) => Opcode::Goto,
        Instruction::Ldc(_) => Opcode::Ldc,
        Instruction::IfAcmpNe(_) => Opcode::IfAcmpne,
        Instruction::Ifeq(_) => Opcode::Ifeq,
        Instruction::Ifne(_) => Opcode::Ifne,
        Instruction::Iflt(_) => Opcode::Iflt,
        Instruction::Ifge(_) => Opcode::Ifge,
        Instruction::Ifgt(_) => Opcode::Ifgt,
        Instruction::Ifle(_) => Opcode::Ifle,
        Instruction::New(_) => Opcode::New,
        Instruction::Astore0 => Opcode::Astore0,
        Instruction::Astore1 => Opcode::Astore1,
        Instruction::Astore2 => Opcode::Astore2,
        Instruction::Astore3 => Opcode::Astore3,
        Instruction::Aload0 => Opcode::Aload0,
        Instruction::Aload1 => Opcode::Aload1,
        Instruction::Aload2 => Opcode::Aload2,
        Instruction::Aload3 => Opcode::Aload3,
        Instruction::Athrow => Opcode::Athrow,
        Instruction::Return => Opcode::Return,
        Instruction::IconstM1 => Opcode::IconstM1,
        Instruction::Iconst0 => Opcode::Iconst0,
        Instruction::Iconst1 => Opcode::Iconst1,
        Instruction::Iconst2 => Opcode::Iconst2,
        Instruction::Iconst3 => Opcode::Iconst3,
        Instruction::Iconst4 => Opcode::Iconst4,
        Instruction::Iconst5 => Opcode::Iconst5,
        Instruction::Areturn => Opcode::Areturn,
        Instruction::Ireturn => Opcode::Ireturn,
        Instruction::Lconst0 => Opcode::Lconst0,
        Instruction::Lconst1 => Opcode::Lconst1,
        Instruction::Lload0 => Opcode::Lload0,
        Instruction::Lload1 => Opcode::Lload1,
        Instruction::Lload2 => Opcode::Lload2,
        Instruction::Lload3 => Opcode::Lload3,
        Instruction::Dup => Opcode::Dup,
        Instruction::Lcmp => Opcode::Lcmp,
        Instruction::Pop => Opcode::Pop,
        Instruction::Iload0 => Opcode::Iload0,
        Instruction::Iload1 => Opcode::Iload1,
        Instruction::Iload2 => Opcode::Iload2,
        Instruction::Iload3 => Opcode::Iload3,
        Instruction::Lstore0 => Opcode::Lstore0,
        Instruction::Lstore1 => Opcode::Lstore1,
        Instruction::Lstore2 => Opcode::Lstore2,
        Instruction::Lstore3 => Opcode::Lstore3,
        Instruction::Ladd => Opcode::Ladd,
    }
}

/// The operand bytes that an instruction is written with.
pub open spec fn operand_bytes(i: Instruction) -> Seq<u8> {
    match i {
        Instruction::Astore(b) | Instruction::Aload(b) => seq![b],
        Instruction::Ldc(v) => narrow_bytes(v),
        Instruction::Ldc2w(v)
        | Instruction::Checkcast(v)
        | Instruction::Invokespecial(v)
        | Instruction::Invokestatic(v)
        | Instruction::Invokevirtual(v)
        | Instruction::Instanceof(v)
        | Instruction::Getstatic(v)
        | Instruction::New(v) => u16_bytes(v),
        Instruction::IfIcmpeq(v)
        | Instruction::IfIcmpne(v)
        | Instruction::IfIcmplt(v)
        | Instruction::IfIcmpge(v)
        | Instruction::IfIcmpgt(v)
        | Instruction::IfIcmple(v)
        | Instruction::Goto(v)
        | Instruction::IfAcmpNe(v)
        | Instruction::Ifeq(v)
        | Instruction::Ifne(v)
        | Instruction::Iflt(v)
        | Instruction::Ifge(v)
        | Instruction::Ifgt(v)
        | Instruction::Ifle(v) => i16_bytes(v),
        _ => Seq::empty(),
    }
}

/// The bytes an instruction is written with in a method's code: its opcode, then its operands.
pub open spec fn encode(i: Instruction) -> Seq<u8> {
    seq![opcode_code(instruction_opcode(i))] + operand_bytes(i)
}

/// The bytes of instructions written one after the other.
pub open spec fn encode_all(instrs: Seq<Instruction>) -> Seq<u8>
    decreases instrs.len(),
{
    if instrs.len() == 0 {
        Seq::empty()
    } else {
        encode(instrs[0]) + encode_all(instrs.drop_first())
    }
}

/// The instruction read from an opcode and its operand bytes is written with that same
/// opcode and those same operand bytes.
pub proof fn lemma_encode_instruction_of(op: Opcode, operands: Seq<u8>)
    requires
        operands.len() == operand_size(op),
    ensures
        instruction_opcode(instruction_of(op, operands)) == op,
        encode(instruction_of(op, operands)) == seq![opcode_code(op)] + operands,
{
    if operands.len() == 2 {
        lemma_two_byte_operand(operands);
    }
    if operands.len() == 1 {
        assert(seq![operands[0]] =~= operands);
        assert(narrow_bytes(wide_operand(operands[0])) =~= operands);
    }
    if operands.len() == 0 {
        assert(operands =~= Seq::<u8>::empty());
    }
}

/// Decoding loses nothing: the decoded instructions, written back, are the code.
pub proof fn lemma_decode_encode(code: Seq<u8>)
    ensures
        decode(code) matches Ok(instrs) ==> encode_all(instrs) == code,
    decreases code.len(),
{
    if code.len() > 0 {
        if let Some(op) = opcode_of(code[0]) {
            let n = operand_size(op);
            if code.len() >= 1 + n {
                lemma_decode_encode(code.skip(1 + n));
                let operands = code.subrange(1, 1 + n);
                lemma_encode_instruction_of(op, operands);
                lemma_opcode_code_round_trip(op, code[0]);
                if let Ok(rest) = decode(code.skip(1 + n)) {
                    let instrs = seq![instruction_of(op, operands)] + rest;
                    assert(instrs.drop_first() =~= rest);
                    assert(instrs[0] == instruction_of(op, operands));
                    assert(seq![code[0]] + operands + code.skip(1 + n) =~= code);
                }
            }
        }
    } else {
        assert(code =~= Seq::<u8>::empty());
    }
}

/// Whether an instruction can be written in the code: a constant-pool index of `ldc`
/// fits in one byte.
pub open spec fn is_encodable(i: Instruction) -> bool {
    match i {
        Instruction::Ldc(v) => v < 256,
        _ => true,
    }
}

proof fn lemma_two_byte_back(v: u16, w: i16)
    ensures
        u16_bytes(v).len() == 2,
        u16_operand(u16_bytes(v)) == v,
        i16_bytes(w).len() == 2,
        i16_operand(i16_bytes(w)) == w,
{
    reveal_with_fuel(be_value, 3);
    let b = u16_bytes(v);
    assert(b.drop_last() =~= seq![b[0]]);
    assert(seq![b[0]].drop_last() =~= Seq::<u8>::empty());
    assert((v / 256) * 256 + v % 256 == v) by (nonlinear_arith);
    assert(be_value(b) == v);
    lemma_i16_as_u16(w);
    let x = w as u16;
    let c = u16_bytes(x);
    assert(c.drop_last() =~= seq![c[0]]);
    assert(seq![c[0]].drop_last() =~= Seq::<u8>::empty());
    assert((x / 256) * 256 + x % 256 == x) by (nonlinear_arith);
    assert(be_value(c) == x);
}

/// Reading back the opcode and operand bytes that an instruction is written with gives
/// the instruction.
pub proof fn lemma_instruction_of_encode(i: Instruction)
    requires
        is_encodable(i),
    ensures
        operand_bytes(i).len() == operand_size(instruction_opcode(i)),
        instruction_of(instruction_opcode(i), operand_bytes(i)) == i,
{
    assert forall|v: u16, w: i16|
        #![trigger u16_bytes(v), i16_bytes(w)]
        u16_operand(u16_bytes(v)) == v && i16_operand(i16_bytes(w)) == w && u16_bytes(v).len() == 2
            && i16_bytes(w).len() == 2 by {
        lemma_two_byte_back(v, w);
    }
    assert forall|v: u16| v < 256 implies #[trigger] wide_operand(narrow_bytes(v)[0]) == v by {}
    assert forall|b: u8| #[trigger] seq![b][0] == b by {}
    if operand_bytes(i).len() == 2 {
        let ops = operand_bytes(i);
        lemma_two_byte_back(u16_operand(ops), i16_operand(ops));
    }
}

/// Writing encodable instructions and decoding the bytes gives back the instructions.
pub proof fn lemma_encode_decode(instrs: Seq<Instruction>)
    requires
        forall|k: int| 0 <= k < instrs.len() ==> is_encodable(#[trigger] instrs[k]),
    ensures
        decode(encode_all(instrs)) == Ok::<Seq<Instruction>, InstructionErr>(instrs),
    decreases instrs.len(),
{
    let code = encode_all(instrs);
    if instrs.len() == 0 {
        assert(code =~= Seq::<u8>::empty());
        assert(instrs =~= Seq::<Instruction>::empty());
    } else {
        let i = instrs[0];
        let rest = instrs.drop_first();
        let op = instruction_opcode(i);
        let ops = operand_bytes(i);
        let n = operand_size(op);
        assert(is_encodable(i));
        lemma_instruction_of_encode(i);
        lemma_opcode_code_round_trip(op, 0);
        assert forall|k: int| 0 <= k < rest.len() implies is_encodable(#[trigger] rest[k]) by {
            assert(rest[k] == instrs[k + 1]);
        }
        lemma_encode_decode(rest);
        assert(code =~= seq![opcode_code(op)] + ops + encode_all(rest));
        assert(code[0] == opcode_code(op));
        assert(code.subrange(1, 1 + n) =~= ops);
        assert(code.skip(1 + n) =~= encode_all(rest));
        assert(seq![i] + rest =~= instrs);
    }
}

impl Instruction {
    /// Decodes the instructions of a method's code (the `code` array of a `Code` attribute).
    pub fn new_instruction_set(code: &Vec<u8>) -> (r: Result<Vec<Instruction>, InstructionErr>)
        ensures
            match decode(code@) {
                Ok(instrs) => r matches Ok(v) && v@ == instrs,
                Err(e) => r == Err::<Vec<Instruction>, InstructionErr>(e),
            },
    {
        let mut cursor = ByteCursor::new(code.as_slice());
        let mut res: Vec<Instruction> = Vec::new();
        proof {
            assert(code@.skip(0) =~= code@);
            if let Ok(all) = decode(code@) {
                assert(res@ + all =~= all);
            }
        }
        loop
            invariant_except_break
                cursor@.data == code@,
                cursor@.order == ByteOrder::BigEndian,
                0 <= cursor@.pos <= code@.len(),
                decode(code@) == match decode(code@.skip(cursor@.pos)) {
                    Ok(rest) => Ok(res@ + rest),
                    Err(e) => Err(e),
                },
            ensures
                decode(code@) == Ok::<Seq<Instruction>, InstructionErr>(res@),
            decreases code@.len() - cursor@.pos,
        {
            let ghost c0: CursorView = cursor@;
            let ghost rest = code@.skip(c0.pos);
            let opcode_byte = match cursor.try_u8() {
                Some(b) => b,
                None => {
                    assert(rest.len() == 0);
                    assert(res@ + Seq::empty() =~= res@);
                    break ;
                },
            };
            assert(rest[0] == opcode_byte);
            let opcode = match Opcode::try_from(opcode_byte) {
                Ok(op) => op,
                Err(_) => {
                    return Err(InstructionErr::UnsupportedOpCode(opcode_byte));
                },
            };
            let ghost n = operand_size(opcode);
            let instruction = match opcode {
                Opcode::IfIcmpeq => Self::IfIcmpeq(operand(cursor.i16())?),
                Opcode::IfIcmpne => Self::IfIcmpne(operand(cursor.i16())?),
                Opcode::IfIcmplt => Self::IfIcmplt(operand(cursor.i16())?),
                Opcode::IfIcmpge => Self::IfIcmpge(operand(cursor.i16())?),
                Opcode::IfIcmpgt => Self::IfIcmpgt(operand(cursor.i16())?),
                Opcode::IfIcmple => Self::IfIcmple(operand(cursor.i16())?),
                Opcode::Ldc2w => Self::Ldc2w(operand(cursor.u16())?),
                Opcode::Astore => Self::Astore(operand(cursor.u8())?),
                Opcode::Aload => Self::Aload(operand(cursor.u8())?),
                Opcode::Checkcast => Self::Checkcast(operand(cursor.u16())?),
                Opcode::Invokespecial => Self::Invokespecial(operand(cursor.u16())?),
                Opcode::Invokestatic => Self::Invokestatic(operand(cursor.u16())?),
                Opcode::Invokevirtual => Self::Invokevirtual(operand(cursor.u16())?),
                Opcode::Instanceof => Self::Instanceof(operand(cursor.u16())?),
                Opcode::Getstatic => Self::Getstatic(operand(cursor.u16())?),
                Opcode::Goto => Self::Goto(operand(cursor.i16())?),
                Opcode::Ldc => Self::Ldc(widen(operand(cursor.u8())?)),
                Opcode::IfAcmpne => Self::IfAcmpNe(operand(cursor.i16())?),
                Opcode::Ifeq => Self::Ifeq(operand(cursor.i16())?),
                Opcode::Ifne => Self::Ifne(operand(cursor.i16())?),
                Opcode::Iflt => Self::Iflt(operand(cursor.i16())?),
                Opcode::Ifge => Self::Ifge(operand(cursor.i16())?),
                Opcode::Ifgt => Self::Ifgt(operand(cursor.i16())?),
                Opcode::Ifle => Self::Ifle(operand(cursor.i16())?),
                Opcode::New => Self::New(operand(cursor.u16())?),
                Opcode::Astore0 => Self::Astore0,
                Opcode::Astore1 => Self::Astore1,
                Opcode::Astore2 => Self::Astore2,
                Opcode::Astore3 => Self::Astore3,
                Opcode::Aload0 => Self::Aload0,
                Opcode::Aload1 => Self::Aload1,
                Opcode::Aload2 => Self::Aload2,
                Opcode::Aload3 => Self::Aload3,
                Opcode::Athrow => Self::Athrow,
                Opcode::Return => Self::Return,
                Opcode::IconstM1 => Self::IconstM1,
                Opcode::Iconst0 => Self::Iconst0,
                Opcode::Iconst1 => Self::Iconst1,
                Opcode::Iconst2 => Self::Iconst2,
                Opcode::Iconst3 => Self::Iconst3,
                Opcode::Iconst4 => Self::Iconst4,
                Opcode::Iconst5 => Self::Iconst5,
                Opcode::Areturn => Self::Areturn,
                Opcode::Ireturn => Self::Ireturn,
                Opcode::Lconst0 => Self::Lconst0,
                Opcode::Lconst1 => Self::Lconst1,
                Opcode::Lload0 => Self::Lload0,
                Opcode::Lload1 => Self::Lload1,
                Opcode::Lload2 => Self::Lload2,
                Opcode::Lload3 => Self::Lload3,
                Opcode::Dup => Self::Dup,
                Opcode::Lcmp => Self::Lcmp,
                Opcode::Pop => Self::Pop,
                Opcode::Iload0 => Self::Iload0,
                Opcode::Iload1 => Self::Iload1,
                Opcode::Iload2 => Self::Iload2,
                Opcode::Iload3 => Self::Iload3,
                Opcode::Lstore0 => Self::Lstore0,
                Opcode::Lstore1 => Self::Lstore1,
                Opcode::Lstore2 => Self::Lstore2,
                Opcode::Lstore3 => Self::Lstore3,
                Opcode::Ladd => Self::Ladd,
            };
            proof {
                assert(cursor@.pos == c0.pos + 1 + n);
                assert(c0.advanced(1).next_bytes(n) =~= rest.subrange(1, 1 + n));
                assert(code@.skip(cursor@.pos) =~= rest.skip(1 + n));
                assert(instruction == instruction_of(opcode, rest.subrange(1, 1 + n)));
            }
            let ghost before = res@;
            res.push(instruction);
            proof {
                if let Ok(tail) = decode(code@.skip(cursor@.pos)) {
                    assert(before + (seq![instruction] + tail) =~= res@ + tail);
                }
            }
        }
        Ok(res)
    }
}

} // verus!
