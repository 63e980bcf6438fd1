use vstd::prelude::*;
use crate::value::ValueArray;

verus! {

/// Instruction tags. The byte of each is its position in this list.
#[derive(Debug, Clone, Copy, PartialEq, Eq, Structural)]
pub enum OpCode {
    OpConstant,
    OpAdd,
    OpSubtract,
    OpMultiply,
    OpDivide,
    OpNegate,
    OpReturn,
}

/// The opcode that a byte of the code stream stands for, if any.
pub open spec fn opcode_of(byte: usize) -> Option<OpCode> {
    if byte == 0 {
        Some(OpCode::OpConstant)
    } else if byte == 1 {
        Some(OpCode::OpAdd)
    } else if byte == 2 {
        Some(OpCode::OpSubtract)
    } else if byte == 3 {
        Some(OpCode::OpMultiply)
    } else if byte == 4 {
        Some(OpCode::OpDivide)
    } else if byte == 5 {
        Some(OpCode::OpNegate)
    } else if byte == 6 {
        Some(OpCode::OpReturn)
    } else {
        None
    }
}

impl OpCode {
    /// The byte that stands for this opcode in a code stream.
    pub open spec fn spec_byte(self) -> usize {
        match self {
            OpCode::OpConstant => 0,
            OpCode::OpAdd => 1,
            OpCode::OpSubtract => 2,
            OpCode::OpMultiply => 3,
            OpCode::OpDivide => 4,
            OpCode::OpNegate => 5,
            OpCode::OpReturn => 6,
        }
    }

    /// Decodes a byte of the code stream; an unknown byte is an error.
    pub fn try_from(value: usize) -> (r: Result<OpCode, ()>)
        ensures
            r matches Ok(op) ==> opcode_of(value) == Some(op),
            r is Err <==> opcode_of(value) is None,
    {
        if value == 0 {
            Ok(OpCode::OpConstant)
        } else if value == 1 {
            Ok(OpCode::OpAdd)
        } else if value == 2 {
            Ok(OpCode::OpSubtract)
        } else if value == 3 {
            Ok(OpCode::OpMultiply)
        } else if value == 4 {
            Ok(OpCode::OpDivide)
        } else if value == 5 {
            Ok(OpCode::OpNegate)
        } else if value == 6 {
            Ok(OpCode::OpReturn)
        } else {
            Err(())
        }
    }

    /// The byte that stands for this opcode; decoding it gives the opcode back.
    pub fn to_byte(self) -> (r: usize)
        ensures
            r == self.spec_byte(),
            opcode_of(r) == Some(self),
    {
        match self {
            OpCode::OpConstant => 0,
            OpCode::OpAdd => 1,
            OpCode::OpSubtract => 2,
            OpCode::OpMultiply => 3,
            OpCode::OpDivide => 4,
            OpCode::OpNegate => 5,
            OpCode::OpReturn => 6,
        }
    }
}

/// Mathematical picture of a chunk: the code stream, its line table and the
/// constant pool.
pub struct ChunkModel<T> {
    pub code: Seq<usize>,
    pub lines: Seq<usize>,
    pub constants: Seq<T>,
}

/// A unit of compiled code: instructions and their operand bytes, the source
/// line of each byte, and the constants the instructions refer to.
#[derive(Clone)]
pub struct Chunk<T> {
    code: Vec<usize>,
    constants: ValueArray<T>,
    lines: Vec<usize>,
}

impl<T> View for Chunk<T> {
    type V = ChunkModel<T>;

    closed spec fn view(&self) -> ChunkModel<T> {
        ChunkModel { code: self.code@, lines: self.lines@, constants: self.constants@ }
    }
}

/// One decoded instruction, as the disassembler shows it.
pub struct Instruction<T> {
    /// Offset of the opcode byte.
    pub offset: usize,
    /// Source line of the opcode byte; `None` where it equals the line of the
    /// byte before it.
    pub line: Option<usize>,
    pub op: OpCode,
    /// The operand byte, for `OpConstant`.
    pub operand: Option<usize>,
    /// The constant that the operand names, where it names one.
    pub constant: Option<T>,
    /// Offset of the next instruction.
    pub next: usize,
}

/// The instruction that starts at `offset`, or `None` where the offset lies
/// outside the code, the byte is no opcode, or an operand byte is missing.
pub open spec fn decode_at<T>(m: ChunkModel<T>, offset: int) -> Option<Instruction<T>> {
    if 0 <= offset < m.code.len() && opcode_of(m.code[offset]) is Some {
        let op = opcode_of(m.code[offset])->0;
        let line = if offset > 0 && m.lines[offset] == m.lines[offset - 1] {
            None
        } else {
            Some(m.lines[offset])
        };
        if op == OpCode::OpConstant {
            if offset + 1 < m.code.len() {
                let index = m.code[offset + 1];
                Some(
                    Instruction {
                        offset: offset as usize,
                        line,
                        op,
                        operand: Some(index),
                        constant: if index < m.constants.len() {
                            Some(m.constants[index as int])
                        } else {
                            None
                        },
                        next: (offset + 2) as usize,
                    },
                )
            } else {
                None
            }
        } else {
            Some(
                Instruction {
                    offset: offset as usize,
                    line,
                    op,
                    operand: None,
                    constant: None,
                    next: (offset + 1) as usize,
                },
            )
        }
    } else {
        None
    }
}

/// The instructions from `offset` to the end of the code, in order; or the
/// offset of the first one that cannot be decoded.
pub open spec fn listing_from<T>(m: ChunkModel<T>, offset: int) -> Result<Seq<Instruction<T>>, usize>
    decreases m.code.len() - offset,
{
    if offset < 0 || offset >= m.code.len() {
        Ok(Seq::empty())
    } else {
        match decode_at(m, offset) {
            None => Err(offset as usize),
            Some(ins) => if ins.next > offset {
                match listing_from(m, ins.next as int) {
                    Ok(rest) => Ok(seq![ins] + rest),
                    Err(e) => Err(e),
                }
            } else {
                Err(offset as usize)
            },
        }
    }
}

/// A disassembled chunk: its name and its instructions.
pub struct Listing<T> {
    pub name: String,
    pub instructions: Vec<Instruction<T>>,
}

impl<T: Copy> Chunk<T> {
    /// Every byte of code has its line.
    pub closed spec fn wf(&self) -> bool {
        self.code@.len() == self.lines@.len()
    }

    /// An empty chunk.
    pub fn new() -> (r: Chunk<T>)
        ensures
            r.wf(),
            r@.code == Seq::<usize>::empty(),
            r@.lines == Seq::<usize>::empty(),
            r@.constants == Seq::<T>::empty(),
    {
        Chunk { code: Vec::new(), constants: ValueArray::new(), lines: Vec::new() }
    }

    /// Appends one byte of code, opcode or operand, with its source line.
    pub fn write_chunk(&mut self, byte: usize, line: usize)
        requires
            old(self).wf(),
        ensures
            final(self).wf(),
            final(self)@.code == old(self)@.code.push(byte),
            final(self)@.lines == old(self)@.lines.push(line),
            final(self)@.constants == old(self)@.constants,
    {
        self.code.push(byte);
        self.lines.push(line);
    }

    /// Appends `value` to the constant pool and returns its index.
    pub fn add_constant(&mut self, value: T) -> (r: usize)
        requires
            old(self).wf(),
        ensures
            final(self).wf(),
            r == old(self)@.constants.len(),
            final(self)@.constants == old(self)@.constants.push(value),
            final(self)@.code == old(self)@.code,
            final(self)@.lines == old(self)@.lines,
    {
        self.constants.add_constant(value);
        self.constants.get_count() - 1
    }

    /// The byte of code at `index`.
    pub fn get(&self, index: usize) -> (r: usize)
        requires
            index < self@.code.len(),
        ensures
            r == self@.code[index as int],
    {
        self.code[index]
    }

    /// The constant at `index` of the pool.
    pub fn get_constant(&self, index: usize) -> (r: T)
        requires
            index < self@.constants.len(),
        ensures
            r == self@.constants[index as int],
    {
        self.constants.get(index)
    }

    /// Number of bytes of code.
    pub fn code_len(&self) -> (r: usize)
        ensures
            r == self@.code.len(),
    {
        self.code.len()
    }

    /// Number of constants in the pool.
    pub fn constant_count(&self) -> (r: usize)
        ensures
            r == self@.constants.len(),
    {
        self.constants.get_count()
    }

    /// A chunk with the same code, lines and constants.
    pub fn duplicate(&self) -> (r: Chunk<T>)
        requires
            self.wf(),
        ensures
            r.wf(),
            r@ == self@,
    {
        Chunk { code: self.code.clone(), constants: self.constants.duplicate(), lines: self.lines.clone() }
    }

    /// Decodes the instruction at `offset`: its line (or `None` where the line
    /// repeats the previous byte's), opcode, operand and the offset after it.
    /// `None` where no instruction can be decoded there.
    pub fn disassemble_instruction(&self, offset: usize) -> (r: Option<Instruction<T>>)
        requires
            self.wf(),
        ensures
            r == decode_at(self@, offset as int),
    {
        if offset >= self.code.len() {
            return None;
        }
        let line = if offset > 0 && self.lines[offset] == self.lines[offset - 1] {
            None
        } else {
            Some(self.lines[offset])
        };
        let byte = self.code[offset];
        match OpCode::try_from(byte) {
            Err(_) => None,
            Ok(OpCode::OpConstant) => Self::constant_instruction(self, offset, line),
            Ok(op) => Some(Self::simple_instruction(op, offset, line)),
        }
    }

    fn simple_instruction(op: OpCode, offset: usize, line: Option<usize>) -> (r: Instruction<T>)
        requires
            offset < usize::MAX,
        ensures
            r == (Instruction::<T> {
                offset,
                line,
                op,
                operand: None,
                constant: None,
                next: (offset + 1) as usize,
            }),
    {
        Instruction { offset, line, op, operand: None, constant: None, next: offset + 1 }
    }

    fn constant_instruction(chunk: &Self, offset: usize, line: Option<usize>) -> (r: Option<
        Instruction<T>,
    >)
        requires
            chunk.wf(),
            offset < chunk@.code.len(),
        ensures
            r == (if offset + 1 < chunk@.code.len() {
                let index = chunk@.code[offset + 1];
                Some(
                    Instruction {
                        offset,
                        line,
                        op: OpCode::OpConstant,
                        operand: Some(index),
                        constant: if index < chunk@.constants.len() {
                            Some(chunk@.constants[index as int])
                        } else {
                            None
                        },
                        next: (offset + 2) as usize,
                    },
                )
            } else {
                None
            }),
    {
        if offset >= chunk.code.len() - 1 {
            return None;
        }
        let index = chunk.code[offset + 1];
        let constant = if index < chunk.constants.get_count() {
            Some(chunk.constants.get(index))
        } else {
            None
        };
        Some(
            Instruction {
                offset,
                line,
                op: OpCode::OpConstant,
                operand: Some(index),
                constant,
                next: offset + 2,
            },
        )
    }

    /// Decodes the whole chunk from offset 0, under the given name. Fails with
    /// the offset of the first byte that cannot be decoded. The chunk is read
    /// only, so the result depends on the chunk alone: disassembling it again
    /// gives the same listing.
    pub fn disassemble_chunk(&self, name: &str) -> (r: Result<Listing<T>, usize>)
        requires
            self.wf(),
        ensures
            match listing_from(self@, 0) {
                Ok(ins) => r matches Ok(l) && l.name@ == name@ && l.instructions@ == ins,
                Err(e) => r == Err::<Listing<T>, usize>(e),
            },
    {
        let mut instructions: Vec<Instruction<T>> = Vec::new();
        let mut offset: usize = 0;
        while offset < self.code.len()
            invariant
                self.wf(),
                listing_from(self@, 0) == match listing_from(self@, offset as int) {
                    Ok(rest) => Ok(instructions@ + rest),
                    Err(e) => Err::<Seq<Instruction<T>>, usize>(e),
                },
            decreases self.code.len() - offset,
        {
            let ghost before = instructions@;
            match self.disassemble_instruction(offset) {
                None => {
                    return Err(offset);
                },
                Some(ins) => {
                    let next = ins.next;
                    instructions.push(ins);
                    proof {
                        match listing_from(self@, next as int) {
                            Ok(rest) => {
                                assert(before + (seq![ins] + rest) =~= instructions@ + rest);
                            },
                            Err(_) => {},
                        }
                    }
                    offset = next;
                },
            }
        }
        assert(instructions@ + Seq::<Instruction<T>>::empty() =~= instructions@);
        Ok(Listing { name: String::from_str(name), instructions })
    }
}

} // verus!
