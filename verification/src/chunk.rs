//! One function's bytecode: the instruction stream, the source line of each
//! byte, and the constant pool.

use vstd::prelude::*;
use crate::text::{decimal, decimal_text, padded_decimal, padded_decimal_text};
use crate::value::{
    ChunkModel, PumpkinValue, chunk_model, chunk_model_constants, values_model_push,
};

verus! {

/// The instructions. Each is one byte in the stream, followed by the operand
/// bytes that [`OpCode::operand_width`] gives.
#[derive(Debug, Clone, Copy, PartialEq, Eq, Structural)]
pub enum OpCode {
    Return,
    Constant,
    Pop,
    Nil,
    True,
    False,
    Print,
    GetLocal,
    SetLocal,
    GetGlobal,
    SetGlobal,
    Add,
    Sub,
    Mul,
    Div,
    Equal,
    Greater,
    Less,
    Not,
    Jump,
    JumpIfFalse,
    Loop,
    Call,
    RepeatStart,
    RepeatEnd,
    ArrayLit,
    IndexGet,
    IndexSet,
    GetProp,
    Import,
    Export,
}

impl OpCode {
    /// The byte that stands for the instruction. Stack and constant
    /// instructions start at 0x00, value access at 0x10, arithmetic and logic
    /// at 0x30, control flow at 0x50, aggregates, properties and modules at
    /// 0x70.
    pub open spec fn byte(self) -> u8 {
        match self {
            OpCode::Return => 0x00,
            OpCode::Constant => 0x01,
            OpCode::Pop => 0x02,
            OpCode::Nil => 0x03,
            OpCode::True => 0x04,
            OpCode::False => 0x05,
            OpCode::Print => 0x06,
            OpCode::GetLocal => 0x10,
            OpCode::SetLocal => 0x11,
            OpCode::GetGlobal => 0x12,
            OpCode::SetGlobal => 0x13,
            OpCode::Add => 0x30,
            OpCode::Sub => 0x31,
            OpCode::Mul => 0x32,
            OpCode::Div => 0x33,
            OpCode::Equal => 0x34,
            OpCode::Greater => 0x35,
            OpCode::Less => 0x36,
            OpCode::Not => 0x37,
            OpCode::Jump => 0x50,
            OpCode::JumpIfFalse => 0x51,
            OpCode::Loop => 0x52,
            OpCode::Call => 0x53,
            OpCode::RepeatStart => 0x54,
            OpCode::RepeatEnd => 0x55,
            OpCode::ArrayLit => 0x70,
            OpCode::IndexGet => 0x71,
            OpCode::IndexSet => 0x72,
            OpCode::GetProp => 0x73,
            OpCode::Import => 0x74,
            OpCode::Export => 0x75,
        }
    }

    /// The instruction that a byte stands for, if any.
    pub open spec fn decode(b: u8) -> Option<OpCode> {
        if b == 0x00 {
            Some(OpCode::Return)
        } else if b == 0x01 {
            Some(OpCode::Constant)
        } else if b == 0x02 {
            Some(OpCode::Pop)
        } else if b == 0x03 {
            Some(OpCode::Nil)
        } else if b == 0x04 {
            Some(OpCode::True)
        } else if b == 0x05 {
            Some(OpCode::False)
        } else if b == 0x06 {
            Some(OpCode::Print)
        } else if b == 0x10 {
            Some(OpCode::GetLocal)
        } else if b == 0x11 {
            Some(OpCode::SetLocal)
        } else if b == 0x12 {
            Some(OpCode::GetGlobal)
        } else if b == 0x13 {
            Some(OpCode::SetGlobal)
        } else if b == 0x30 {
            Some(OpCode::Add)
        } else if b == 0x31 {
            Some(OpCode::Sub)
        } else if b == 0x32 {
            Some(OpCode::Mul)
        } else if b == 0x33 {
            Some(OpCode::Div)
        } else if b == 0x34 {
            Some(OpCode::Equal)
        } else if b == 0x35 {
            Some(OpCode::Greater)
        } else if b == 0x36 {
            Some(OpCode::Less)
        } else if b == 0x37 {
            Some(OpCode::Not)
        } else if b == 0x50 {
            Some(OpCode::Jump)
        } else if b == 0x51 {
            Some(OpCode::JumpIfFalse)
        } else if b == 0x52 {
            Some(OpCode::Loop)
        } else if b == 0x53 {
            Some(OpCode::Call)
        } else if b == 0x54 {
            Some(OpCode::RepeatStart)
        } else if b == 0x55 {
            Some(OpCode::RepeatEnd)
        } else if b == 0x70 {
            Some(OpCode::ArrayLit)
        } else if b == 0x71 {
            Some(OpCode::IndexGet)
        } else if b == 0x72 {
            Some(OpCode::IndexSet)
        } else if b == 0x73 {
            Some(OpCode::GetProp)
        } else if b == 0x74 {
            Some(OpCode::Import)
        } else if b == 0x75 {
            Some(OpCode::Export)
        } else {
            None
        }
    }

    /// How many operand bytes follow the instruction: one for an index into
    /// the constants or the locals and for an argument count, two (big-endian)
    /// for a jump distance and for an element count.
    pub open spec fn operand_width(self) -> nat {
        match self {
            OpCode::Constant
            | OpCode::GetLocal
            | OpCode::SetLocal
            | OpCode::GetGlobal
            | OpCode::SetGlobal
            | OpCode::Call
            | OpCode::GetProp
            | OpCode::Import
            | OpCode::Export => 1,
            OpCode::Jump
            | OpCode::JumpIfFalse
            | OpCode::Loop
            | OpCode::RepeatStart
            | OpCode::RepeatEnd
            | OpCode::ArrayLit => 2,
            _ => 0,
        }
    }

    /// The instruction's name, as the disassembly prints it.
    pub open spec fn mnemonic(self) -> Seq<char> {
        match self {
            OpCode::Return => "Return"@,
            OpCode::Constant => "Constant"@,
            OpCode::Pop => "Pop"@,
            OpCode::Nil => "Nil"@,
            OpCode::True => "True"@,
            OpCode::False => "False"@,
            OpCode::Print => "Print"@,
            OpCode::GetLocal => "GetLocal"@,
            OpCode::SetLocal => "SetLocal"@,
            OpCode::GetGlobal => "GetGlobal"@,
            OpCode::SetGlobal => "SetGlobal"@,
            OpCode::Add => "Add"@,
            OpCode::Sub => "Sub"@,
            OpCode::Mul => "Mul"@,
            OpCode::Div => "Div"@,
            OpCode::Equal => "Equal"@,
            OpCode::Greater => "Greater"@,
            OpCode::Less => "Less"@,
            OpCode::Not => "Not"@,
            OpCode::Jump => "Jump"@,
            OpCode::JumpIfFalse => "JumpIfFalse"@,
            OpCode::Loop => "Loop"@,
            OpCode::Call => "Call"@,
            OpCode::RepeatStart => "RepeatStart"@,
            OpCode::RepeatEnd => "RepeatEnd"@,
            OpCode::ArrayLit => "ArrayLit"@,
            OpCode::IndexGet => "IndexGet"@,
            OpCode::IndexSet => "IndexSet"@,
            OpCode::GetProp => "GetProp"@,
            OpCode::Import => "Import"@,
            OpCode::Export => "Export"@,
        }
    }

    /// The byte that stands for the instruction.
    pub fn to_byte(self) -> (r: u8)
        ensures
            r == self.byte(),
    {
        match self {
            OpCode::Return => 0x00,
            OpCode::Constant => 0x01,
            OpCode::Pop => 0x02,
            OpCode::Nil => 0x03,
            OpCode::True => 0x04,
            OpCode::False => 0x05,
            OpCode::Print => 0x06,
            OpCode::GetLocal => 0x10,
            OpCode::SetLocal => 0x11,
            OpCode::GetGlobal => 0x12,
            OpCode::SetGlobal => 0x13,
            OpCode::Add => 0x30,
            OpCode::Sub => 0x31,
            OpCode::Mul => 0x32,
            OpCode::Div => 0x33,
            OpCode::Equal => 0x34,
            OpCode::Greater => 0x35,
            OpCode::Less => 0x36,
            OpCode::Not => 0x37,
            OpCode::Jump => 0x50,
            OpCode::JumpIfFalse => 0x51,
            OpCode::Loop => 0x52,
            OpCode::Call => 0x53,
            OpCode::RepeatStart => 0x54,
            OpCode::RepeatEnd => 0x55,
            OpCode::ArrayLit => 0x70,
            OpCode::IndexGet => 0x71,
            OpCode::IndexSet => 0x72,
            OpCode::GetProp => 0x73,
            OpCode::Import => 0x74,
            OpCode::Export => 0x75,
        }
    }

    /// Decodes one byte. A byte that stands for no instruction gives `None`:
    /// it is never taken for an instruction.
    pub fn from_byte(b: u8) -> (r: Option<OpCode>)
        ensures
            r == OpCode::decode(b),
    {
        match b {
            0x00 => Some(OpCode::Return),
            0x01 => Some(OpCode::Constant),
            0x02 => Some(OpCode::Pop),
            0x03 => Some(OpCode::Nil),
            0x04 => Some(OpCode::True),
            0x05 => Some(OpCode::False),
            0x06 => Some(OpCode::Print),
            0x10 => Some(OpCode::GetLocal),
            0x11 => Some(OpCode::SetLocal),
            0x12 => Some(OpCode::GetGlobal),
            0x13 => Some(OpCode::SetGlobal),
            0x30 => Some(OpCode::Add),
            0x31 => Some(OpCode::Sub),
            0x32 => Some(OpCode::Mul),
            0x33 => Some(OpCode::Div),
            0x34 => Some(OpCode::Equal),
            0x35 => Some(OpCode::Greater),
            0x36 => Some(OpCode::Less),
            0x37 => Some(OpCode::Not),
            0x50 => Some(OpCode::Jump),
            0x51 => Some(OpCode::JumpIfFalse),
            0x52 => Some(OpCode::Loop),
            0x53 => Some(OpCode::Call),
            0x54 => Some(OpCode::RepeatStart),
            0x55 => Some(OpCode::RepeatEnd),
            0x70 => Some(OpCode::ArrayLit),
            0x71 => Some(OpCode::IndexGet),
            0x72 => Some(OpCode::IndexSet),
            0x73 => Some(OpCode::GetProp),
            0x74 => Some(OpCode::Import),
            0x75 => Some(OpCode::Export),
            _ => None,
        }
    }

    /// How many operand bytes follow the instruction.
    pub fn operand_bytes(self) -> (r: usize)
        ensures
            r == self.operand_width(),
    {
        match self {
            OpCode::Constant
            | OpCode::GetLocal
            | OpCode::SetLocal
            | OpCode::GetGlobal
            | OpCode::SetGlobal
            | OpCode::Call
            | OpCode::GetProp
            | OpCode::Import
            | OpCode::Export => 1,
            OpCode::Jump
            | OpCode::JumpIfFalse
            | OpCode::Loop
            | OpCode::RepeatStart
            | OpCode::RepeatEnd
            | OpCode::ArrayLit => 2,
            _ => 0,
        }
    }

    /// The instruction's name.
    pub fn name(self) -> (r: &'static str)
        ensures
            r@ == self.mnemonic(),
    {
        match self {
            OpCode::Return => "Return",
            OpCode::Constant => "Constant",
            OpCode::Pop => "Pop",
            OpCode::Nil => "Nil",
            OpCode::True => "True",
            OpCode::False => "False",
            OpCode::Print => "Print",
            OpCode::GetLocal => "GetLocal",
            OpCode::SetLocal => "SetLocal",
            OpCode::GetGlobal => "GetGlobal",
            OpCode::SetGlobal => "SetGlobal",
            OpCode::Add => "Add",
            OpCode::Sub => "Sub",
            OpCode::Mul => "Mul",
            OpCode::Div => "Div",
            OpCode::Equal => "Equal",
            OpCode::Greater => "Greater",
            OpCode::Less => "Less",
            OpCode::Not => "Not",
            OpCode::Jump => "Jump",
            OpCode::JumpIfFalse => "JumpIfFalse",
            OpCode::Loop => "Loop",
            OpCode::Call => "Call",
            OpCode::RepeatStart => "RepeatStart",
            OpCode::RepeatEnd => "RepeatEnd",
            OpCode::ArrayLit => "ArrayLit",
            OpCode::IndexGet => "IndexGet",
            OpCode::IndexSet => "IndexSet",
            OpCode::GetProp => "GetProp",
            OpCode::Import => "Import",
            OpCode::Export => "Export",
        }
    }
}

/// Every instruction is decoded from its own byte, and from no other.
pub proof fn decode_inverts_byte(op: OpCode, b: u8)
    ensures
        OpCode::decode(op.byte()) == Some(op),
        OpCode::decode(b) == Some(op) ==> b == op.byte(),
{
}

/// The 16-bit operand that two bytes encode, high byte first.
pub open spec fn operand_u16(high: u8, low: u8) -> nat {
    (high as nat) * 256 + low as nat
}

/// The high byte of a 16-bit operand.
pub open spec fn high_byte(n: nat) -> u8 {
    (n / 256) as u8
}

/// The low byte of a 16-bit operand.
pub open spec fn low_byte(n: nat) -> u8 {
    (n % 256) as u8
}

/// The two bytes of a 16-bit operand encode it.
pub proof fn operand_bytes_encode(n: nat)
    requires
        n <= 0xffff,
    ensures
        operand_u16(high_byte(n), low_byte(n)) == n,
{
}

#[derive(Debug, PartialEq)]
pub struct Chunk {
    pub code: Vec<u8>,
    pub constants: Vec<PumpkinValue>,
    pub lines: Vec<usize>,
}

impl View for Chunk {
    type V = ChunkModel;

    open spec fn view(&self) -> ChunkModel {
        chunk_model(*self)
    }
}

impl ChunkModel {
    /// The empty chunk.
    pub open spec fn empty() -> ChunkModel {
        ChunkModel { code: Seq::empty(), constants: Seq::empty(), lines: Seq::empty() }
    }

    /// Every byte of the code has its line.
    pub open spec fn well_formed(self) -> bool {
        self.lines.len() == self.code.len()
    }

    /// The chunk with one more byte, emitted for `line`.
    pub open spec fn write(self, byte: u8, line: usize) -> ChunkModel {
        ChunkModel { code: self.code.push(byte), lines: self.lines.push(line), ..self }
    }

    /// The chunk with one more instruction byte.
    pub open spec fn write_op(self, op: OpCode, line: usize) -> ChunkModel {
        self.write(op.byte(), line)
    }

    /// The chunk with one more constant, at index `self.constants.len()`.
    pub open spec fn add_constant(self, value: crate::value::ValueModel) -> ChunkModel {
        ChunkModel { constants: self.constants.push(value), ..self }
    }

    /// The byte at `at`, 0 behind the end of the code.
    pub open spec fn byte_at(self, at: int) -> u8 {
        if 0 <= at < self.code.len() {
            self.code[at]
        } else {
            0
        }
    }
}

impl Chunk {
    /// Every byte of the code has its line.
    pub open spec fn well_formed(&self) -> bool {
        self@.well_formed()
    }

    pub fn new() -> (r: Self)
        ensures
            r@ == ChunkModel::empty(),
            r.well_formed(),
    {
        let r = Chunk { code: Vec::new(), constants: Vec::new(), lines: Vec::new() };
        assert(r@.constants =~= Seq::empty());
        r
    }

    /// Appends one byte of code and the line that emitted it.
    pub fn write(&mut self, byte: u8, line: usize)
        ensures
            final(self)@ == old(self)@.write(byte, line),
            old(self).well_formed() ==> final(self).well_formed(),
    {
        self.code.push(byte);
        self.lines.push(line);
        proof {
            chunk_model_constants(old(self));
            chunk_model_constants(self);
        }
    }

    /// Appends one instruction byte and the line that emitted it.
    pub fn write_op(&mut self, op: OpCode, line: usize)
        ensures
            final(self)@ == old(self)@.write_op(op, line),
            old(self).well_formed() ==> final(self).well_formed(),
    {
        self.write(op.to_byte(), line);
    }

    /// Appends a constant and returns its index. Equal values are not merged.
    pub fn add_constant(&mut self, value: PumpkinValue) -> (index: usize)
        ensures
            final(self)@ == old(self)@.add_constant(value@),
            index == old(self)@.constants.len(),
            old(self).well_formed() ==> final(self).well_formed(),
    {
        self.constants.push(value);
        proof {
            chunk_model_constants(old(self));
            chunk_model_constants(self);
            values_model_push(old(self).constants@, value);
        }
        self.constants.len() - 1
    }
}

/// The byte of `code` at `at`, 0 behind its end.
pub open spec fn code_byte(code: Seq<u8>, at: int) -> u8 {
    if 0 <= at < code.len() {
        code[at]
    } else {
        0
    }
}

/// One instruction as the disassembly shows it: its name and its operand.
/// A byte that is no instruction shows as `Unknown` and its value. Operand
/// bytes that the code lacks read as 0.
pub open spec fn instruction_text(code: Seq<u8>, at: int) -> Seq<char> {
    match OpCode::decode(code_byte(code, at)) {
        None => "Unknown "@ + decimal_text(code_byte(code, at) as nat),
        Some(op) => if op.operand_width() == 1 {
            op.mnemonic() + " "@ + decimal_text(code_byte(code, at + 1) as nat)
        } else if op.operand_width() == 2 {
            op.mnemonic() + " "@ + decimal_text(
                operand_u16(code_byte(code, at + 1), code_byte(code, at + 2)),
            )
        } else {
            op.mnemonic()
        },
    }
}

/// How many operand bytes the instruction at `at` takes.
pub open spec fn operand_extent(code: Seq<u8>, at: int) -> nat {
    match OpCode::decode(code_byte(code, at)) {
        None => 0,
        Some(op) => op.operand_width(),
    }
}

/// The lines of the disassembly from offset `at` on: for each instruction
/// its offset in four digits, a space, the instruction, a line feed.
pub open spec fn listing(code: Seq<u8>, at: nat) -> Seq<char>
    decreases
            if at < code.len() {
                code.len() - at
            } else {
                0
            },
{
    if at >= code.len() {
        Seq::empty()
    } else {
        padded_decimal_text(at, 4) + " "@ + instruction_text(code, at as int) + "\n"@ + listing(
            code,
            (at + 1 + operand_extent(code, at as int)) as nat,
        )
    }
}

/// The disassembly of a chunk: a headline, then the listing of its code.
pub open spec fn disassembly(c: ChunkModel) -> Seq<char> {
    "== Chunk ==\n"@ + listing(c.code, 0)
}

impl Chunk {
    fn byte_or_zero(&self, at: usize) -> (r: u8)
        ensures
            r == code_byte(self.code@, at as int),
    {
        if at < self.code.len() {
            self.code[at]
        } else {
            0
        }
    }

    /// The chunk's code as text, one instruction per line.
    #[verifier::rlimit(50)]
    pub fn disassemble(&self) -> (r: String)
        ensures
            r@ == disassembly(self@),
    {
        proof {
            chunk_model_constants(self);
        }
        let mut out = String::from_str("== Chunk ==\n");
        let ghost head = out@;
        let mut i: usize = 0;
        while i < self.code.len()
            invariant
                head == "== Chunk ==\n"@,
                out@ + listing(self.code@, i as nat) == head + listing(self.code@, 0),
            decreases self.code.len() - i,
        {
            let ghost before = out@;
            let ghost rest = listing(self.code@, i as nat);
            out.append(padded_decimal(i, 4).as_str());
            out.append(" ");
            let byte = self.code[i];
            let mut size: usize = 1;
            match OpCode::from_byte(byte) {
                None => {
                    out.append("Unknown ");
                    out.append(decimal(byte as usize).as_str());
                },
                Some(op) => {
                    out.append(op.name());
                    let width = op.operand_bytes();
                    size = 1 + width;
                    if width == 1 {
                        out.append(" ");
                        let operand = if i < usize::MAX {
                            self.byte_or_zero(i + 1)
                        } else {
                            0
                        };
                        out.append(decimal(operand as usize).as_str());
                    } else if width == 2 {
                        out.append(" ");
                        let high = if i < usize::MAX {
                            self.byte_or_zero(i + 1)
                        } else {
                            0
                        };
                        let low = if i < usize::MAX - 1 {
                            self.byte_or_zero(i + 2)
                        } else {
                            0
                        };
                        out.append(decimal((high as usize) * 256 + (low as usize)).as_str());
                    }
                },
            }
            out.append("\n");
            proof {
                let next = listing(
                    self.code@,
                    (i as nat + 1 + operand_extent(self.code@, i as int)) as nat,
                );
                assert(out@ =~= before + (padded_decimal_text(i as nat, 4) + " "@
                    + instruction_text(self.code@, i as int) + "\n"@));
                assert(out@ + next =~= before + rest);
            }
            if size > self.code.len() - i {
                i = self.code.len();
            } else {
                i = i + size;
            }
        }
        assert(out@ + listing(self.code@, i as nat) =~= out@);
        out
    }
}

} // verus!
