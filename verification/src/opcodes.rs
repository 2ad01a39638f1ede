//! The closed set of bytecode instructions and their one-byte encoding.
use vstd::prelude::*;
use vstd::std_specs::convert::FromSpecImpl;

verus! {

/// One instruction tag of the bytecode.
#[derive(Debug, Clone, Copy, PartialEq, Eq, Structural)]
pub enum OpCode {
    OpReturn,
    OpConstant,
    OpConstantLong,
    OpNegate,
    OpAdd,
    OpSubtract,
    OpMultiply,
    OpDivide,
    OpPower,
    OpNull,
    OpTrue,
    OpFalse,
    OpNot,
    OpEqualEqual,
    OpGreater,
    OpGreaterEqual,
    OpLess,
    OpLessEqual,
    OpBangEqual,
    OpInterpolate,
    OpPrint,
    OpPop,
    OpDefineGlobal,
    OpGetGlobal,
    OpSetGlobal,
}

/// The number of instruction tags; every byte below it encodes one.
pub const OPCODE_COUNT: u8 = 25;

impl OpCode {
    /// The byte that encodes this instruction.
    pub open spec fn byte(self) -> u8 {
        match self {
            OpCode::OpReturn => 0,
            OpCode::OpConstant => 1,
            OpCode::OpConstantLong => 2,
            OpCode::OpNegate => 3,
            OpCode::OpAdd => 4,
            OpCode::OpSubtract => 5,
            OpCode::OpMultiply => 6,
            OpCode::OpDivide => 7,
            OpCode::OpPower => 8,
            OpCode::OpNull => 9,
            OpCode::OpTrue => 10,
            OpCode::OpFalse => 11,
            OpCode::OpNot => 12,
            OpCode::OpEqualEqual => 13,
            OpCode::OpGreater => 14,
            OpCode::OpGreaterEqual => 15,
            OpCode::OpLess => 16,
            OpCode::OpLessEqual => 17,
            OpCode::OpBangEqual => 18,
            OpCode::OpInterpolate => 19,
            OpCode::OpPrint => 20,
            OpCode::OpPop => 21,
            OpCode::OpDefineGlobal => 22,
            OpCode::OpGetGlobal => 23,
            OpCode::OpSetGlobal => 24,
        }
    }

    /// The instruction that a byte encodes, if it encodes one.
    pub open spec fn decode(byte: u8) -> Option<OpCode> {
        if byte == 0 {
            Some(OpCode::OpReturn)
        } else if byte == 1 {
            Some(OpCode::OpConstant)
        } else if byte == 2 {
            Some(OpCode::OpConstantLong)
        } else if byte == 3 {
            Some(OpCode::OpNegate)
        } else if byte == 4 {
            Some(OpCode::OpAdd)
        } else if byte == 5 {
            Some(OpCode::OpSubtract)
        } else if byte == 6 {
            Some(OpCode::OpMultiply)
        } else if byte == 7 {
            Some(OpCode::OpDivide)
        } else if byte == 8 {
            Some(OpCode::OpPower)
        } else if byte == 9 {
            Some(OpCode::OpNull)
        } else if byte == 10 {
            Some(OpCode::OpTrue)
        } else if byte == 11 {
            Some(OpCode::OpFalse)
        } else if byte == 12 {
            Some(OpCode::OpNot)
        } else if byte == 13 {
            Some(OpCode::OpEqualEqual)
        } else if byte == 14 {
            Some(OpCode::OpGreater)
        } else if byte == 15 {
            Some(OpCode::OpGreaterEqual)
        } else if byte == 16 {
            Some(OpCode::OpLess)
        } else if byte == 17 {
            Some(OpCode::OpLessEqual)
        } else if byte == 18 {
            Some(OpCode::OpBangEqual)
        } else if byte == 19 {
            Some(OpCode::OpInterpolate)
        } else if byte == 20 {
            Some(OpCode::OpPrint)
        } else if byte == 21 {
            Some(OpCode::OpPop)
        } else if byte == 22 {
            Some(OpCode::OpDefineGlobal)
        } else if byte == 23 {
            Some(OpCode::OpGetGlobal)
        } else if byte == 24 {
            Some(OpCode::OpSetGlobal)
        } else {
            None
        }
    }

    /// Encodes the instruction as its byte.
    pub fn to_byte(self) -> (b: u8)
        ensures
            b == self.byte(),
            b < OPCODE_COUNT,
    {
        match self {
            OpCode::OpReturn => 0,
            OpCode::OpConstant => 1,
            OpCode::OpConstantLong => 2,
            OpCode::OpNegate => 3,
            OpCode::OpAdd => 4,
            OpCode::OpSubtract => 5,
            OpCode::OpMultiply => 6,
            OpCode::OpDivide => 7,
            OpCode::OpPower => 8,
            OpCode::OpNull => 9,
            OpCode::OpTrue => 10,
            OpCode::OpFalse => 11,
            OpCode::OpNot => 12,
            OpCode::OpEqualEqual => 13,
            OpCode::OpGreater => 14,
            OpCode::OpGreaterEqual => 15,
            OpCode::OpLess => 16,
            OpCode::OpLessEqual => 17,
            OpCode::OpBangEqual => 18,
            OpCode::OpInterpolate => 19,
            OpCode::OpPrint => 20,
            OpCode::OpPop => 21,
            OpCode::OpDefineGlobal => 22,
            OpCode::OpGetGlobal => 23,
            OpCode::OpSetGlobal => 24,
        }
    }

    /// Decodes a byte; a byte that encodes no instruction gives `None`.
    pub fn from_byte(byte: u8) -> (op: Option<OpCode>)
        ensures
            op == OpCode::decode(byte),
            op is Some <==> byte < OPCODE_COUNT,
            op is Some ==> op->0.byte() == byte,
    {
        match byte {
            0 => Some(OpCode::OpReturn),
            1 => Some(OpCode::OpConstant),
            2 => Some(OpCode::OpConstantLong),
            3 => Some(OpCode::OpNegate),
            4 => Some(OpCode::OpAdd),
            5 => Some(OpCode::OpSubtract),
            6 => Some(OpCode::OpMultiply),
            7 => Some(OpCode::OpDivide),
            8 => Some(OpCode::OpPower),
            9 => Some(OpCode::OpNull),
            10 => Some(OpCode::OpTrue),
            11 => Some(OpCode::OpFalse),
            12 => Some(OpCode::OpNot),
            13 => Some(OpCode::OpEqualEqual),
            14 => Some(OpCode::OpGreater),
            15 => Some(OpCode::OpGreaterEqual),
            16 => Some(OpCode::OpLess),
            17 => Some(OpCode::OpLessEqual),
            18 => Some(OpCode::OpBangEqual),
            19 => Some(OpCode::OpInterpolate),
            20 => Some(OpCode::OpPrint),
            21 => Some(OpCode::OpPop),
            22 => Some(OpCode::OpDefineGlobal),
            23 => Some(OpCode::OpGetGlobal),
            24 => Some(OpCode::OpSetGlobal),
            _ => None,
        }
    }

    /// The instruction's name as the disassembler writes it.
    pub fn instruction_name(self) -> (name: &'static str)
        ensures
            name@ == self.instruction_name_spec(),
    {
        match self {
            OpCode::OpReturn => "OP_RETURN",
            OpCode::OpConstant => "OP_CONSTANT",
            OpCode::OpConstantLong => "OP_CONSTANT_LONG",
            OpCode::OpNegate => "OP_NEGATE",
            OpCode::OpAdd => "OP_ADD",
            OpCode::OpSubtract => "OP_SUBTRACT",
            OpCode::OpMultiply => "OP_MULTIPLY",
            OpCode::OpDivide => "OP_DIVIDE",
            OpCode::OpPower => "OP_POWER",
            OpCode::OpNull => "OP_NULL",
            OpCode::OpTrue => "OP_TRUE",
            OpCode::OpFalse => "OP_FALSE",
            OpCode::OpNot => "OP_NOT",
            OpCode::OpEqualEqual => "OP_EQUAL_EQUAL",
            OpCode::OpGreater => "OP_GREATER",
            OpCode::OpGreaterEqual => "OP_GREATER_EQUAL",
            OpCode::OpLess => "OP_LESS",
            OpCode::OpLessEqual => "OP_LESS_EQUAL",
            OpCode::OpBangEqual => "OP_BANG_EQUAL",
            OpCode::OpInterpolate => "OP_INTERPOLATE",
            OpCode::OpPrint => "OP_PRINT",
            OpCode::OpPop => "OP_POP",
            OpCode::OpDefineGlobal => "OP_DEFINE_GLOBAL",
            OpCode::OpGetGlobal => "OP_GET_GLOBAL",
            OpCode::OpSetGlobal => "OP_SET_GLOBAL",
        }
    }

    /// The text of `instruction_name`.
    pub open spec fn instruction_name_spec(self) -> Seq<char> {
        match self {
            OpCode::OpReturn => "OP_RETURN"@,
            OpCode::OpConstant => "OP_CONSTANT"@,
            OpCode::OpConstantLong => "OP_CONSTANT_LONG"@,
            OpCode::OpNegate => "OP_NEGATE"@,
            OpCode::OpAdd => "OP_ADD"@,
            OpCode::OpSubtract => "OP_SUBTRACT"@,
            OpCode::OpMultiply => "OP_MULTIPLY"@,
            OpCode::OpDivide => "OP_DIVIDE"@,
            OpCode::OpPower => "OP_POWER"@,
            OpCode::OpNull => "OP_NULL"@,
            OpCode::OpTrue => "OP_TRUE"@,
            OpCode::OpFalse => "OP_FALSE"@,
            OpCode::OpNot => "OP_NOT"@,
            OpCode::OpEqualEqual => "OP_EQUAL_EQUAL"@,
            OpCode::OpGreater => "OP_GREATER"@,
            OpCode::OpGreaterEqual => "OP_GREATER_EQUAL"@,
            OpCode::OpLess => "OP_LESS"@,
            OpCode::OpLessEqual => "OP_LESS_EQUAL"@,
            OpCode::OpBangEqual => "OP_BANG_EQUAL"@,
            OpCode::OpInterpolate => "OP_INTERPOLATE"@,
            OpCode::OpPrint => "OP_PRINT"@,
            OpCode::OpPop => "OP_POP"@,
            OpCode::OpDefineGlobal => "OP_DEFINE_GLOBAL"@,
            OpCode::OpGetGlobal => "OP_GET_GLOBAL"@,
            OpCode::OpSetGlobal => "OP_SET_GLOBAL"@,
        }
    }

    /// How many bytes the instruction occupies, operands included.
    pub open spec fn width_spec(self) -> int {
        match self {
            OpCode::OpConstant
            | OpCode::OpDefineGlobal
            | OpCode::OpGetGlobal
            | OpCode::OpSetGlobal => 2,
            OpCode::OpConstantLong => 4,
            _ => 1,
        }
    }

    /// How many bytes the instruction occupies, operands included.
    pub fn width(self) -> (w: usize)
        ensures
            w == self.width_spec(),
    {
        match self {
            OpCode::OpConstant
            | OpCode::OpDefineGlobal
            | OpCode::OpGetGlobal
            | OpCode::OpSetGlobal => 2,
            OpCode::OpConstantLong => 4,
            _ => 1,
        }
    }
}

impl From<OpCode> for u8 {
    fn from(op: OpCode) -> (b: u8) {
        op.to_byte()
    }
}

impl FromSpecImpl<OpCode> for u8 {
    open spec fn obeys_from_spec() -> bool {
        true
    }

    open spec fn from_spec(op: OpCode) -> u8 {
        op.byte()
    }
}

/// Encoding an instruction and decoding the byte gives the instruction back.
pub proof fn lemma_decode_byte(op: OpCode)
    ensures
        OpCode::decode(op.byte()) == Some(op),
{
}

/// Two instructions with the same byte are the same instruction.
pub proof fn lemma_byte_injective(a: OpCode, b: OpCode)
    requires
        a.byte() == b.byte(),
    ensures
        a == b,
{
    lemma_decode_byte(a);
    lemma_decode_byte(b);
}

} // verus!
