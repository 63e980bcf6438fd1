use vstd::prelude::*;
use crate::chunk::{opcode_of, Chunk, ChunkModel, OpCode};

verus! {

/// Terminal outcome of executing a chunk.
#[derive(Debug, Clone, Copy, PartialEq, Eq, Structural)]
pub enum InterpretResult {
    InterpretOk,
    /// The code holds a byte that is no opcode.
    InterpretCompilerError,
    /// The program went wrong while running: the stack ran empty, an operand
    /// or a constant was missing, or the code ended without `OpReturn`.
    InterpretRuntimeError,
}

/// Where the machine stopped. The machine moves values but does no arithmetic
/// on them: for `Binary` and `Negate` it has popped the operands and waits for
/// the caller to push the result (`push_stack`) and resume (`run`).
#[derive(Debug, Clone, Copy, PartialEq, Eq)]
pub enum Step<T> {
    /// `left op right` is owed, for one of the four binary opcodes.
    Binary(OpCode, T, T),
    /// The arithmetic inverse of the operand is owed.
    Negate(T),
    /// `OpReturn` ran and handed back this value: the program ended well.
    Done(T),
    /// The program stopped on an error.
    Fault(InterpretResult),
}

/// Mathematical picture of the machine: the chunk it runs, the instruction
/// pointer and the operand stack (top last).
pub struct MachineState<T> {
    pub chunk: ChunkModel<T>,
    pub ip: int,
    pub stack: Seq<T>,
}

pub open spec fn is_binary(op: OpCode) -> bool {
    op == OpCode::OpAdd || op == OpCode::OpSubtract || op == OpCode::OpMultiply
        || op == OpCode::OpDivide
}

/// What `run` does from state `m`: it executes instructions until one needs
/// arithmetic, returns, or fails, and gives the state after it and the step.
pub open spec fn run_from<T>(m: MachineState<T>) -> (MachineState<T>, Step<T>)
    decreases m.chunk.code.len() - m.ip,
{
    let code = m.chunk.code;
    let n = m.stack.len();
    if m.ip < 0 || m.ip >= code.len() {
        (m, Step::Fault(InterpretResult::InterpretRuntimeError))
    } else {
        let next = MachineState { ip: m.ip + 1, ..m };
        match opcode_of(code[m.ip]) {
            None => (next, Step::Fault(InterpretResult::InterpretCompilerError)),
            Some(op) => if op == OpCode::OpConstant {
                if m.ip + 1 >= code.len() || code[m.ip + 1] >= m.chunk.constants.len() {
                    (next, Step::Fault(InterpretResult::InterpretRuntimeError))
                } else {
                    run_from(
                        MachineState {
                            ip: m.ip + 2,
                            stack: m.stack.push(m.chunk.constants[code[m.ip + 1] as int]),
                            ..m
                        },
                    )
                }
            } else if op == OpCode::OpReturn || op == OpCode::OpNegate {
                if n == 0 {
                    (next, Step::Fault(InterpretResult::InterpretRuntimeError))
                } else {
                    let popped = MachineState { stack: m.stack.drop_last(), ..next };
                    if op == OpCode::OpReturn {
                        (popped, Step::Done(m.stack.last()))
                    } else {
                        (popped, Step::Negate(m.stack.last()))
                    }
                }
            } else {
                if n < 2 {
                    (next, Step::Fault(InterpretResult::InterpretRuntimeError))
                } else {
                    (
                        MachineState { stack: m.stack.subrange(0, n - 2), ..next },
                        Step::Binary(op, m.stack[n - 2], m.stack[n - 1]),
                    )
                }
            },
        }
    }
}

/// A stack machine over values of type `T`.
pub struct VM<T> {
    chunk: Chunk<T>,
    ip: usize,
    stack: Vec<T>,
}

impl<T> View for VM<T> {
    type V = MachineState<T>;

    closed spec fn view(&self) -> MachineState<T> {
        MachineState { chunk: self.chunk@, ip: self.ip as int, stack: self.stack@ }
    }
}

impl<T: Copy> VM<T> {
    /// The machine's chunk has a line for each byte of code.
    pub closed spec fn wf(&self) -> bool {
        self.chunk.wf()
    }

    /// An idle machine with an empty chunk and an empty stack.
    pub fn new() -> (r: VM<T>)
        ensures
            r.wf(),
            r@.chunk.code == Seq::<usize>::empty(),
            r@.chunk.constants == Seq::<T>::empty(),
            r@.ip == 0,
            r@.stack == Seq::<T>::empty(),
    {
        VM { chunk: Chunk::new(), ip: 0, stack: Vec::new() }
    }

    /// Binds a copy of `chunk` as the program; the pointer and stack stay.
    pub fn init(&mut self, chunk: &Chunk<T>)
        requires
            chunk.wf(),
        ensures
            final(self).wf(),
            final(self)@ == (MachineState { chunk: chunk@, ..old(self)@ }),
    {
        self.chunk = chunk.duplicate();
    }

    /// Binds a copy of `chunk`, starts it from offset 0 on an empty stack, and
    /// runs it to its first step.
    pub fn interpret(&mut self, chunk: &Chunk<T>) -> (r: Step<T>)
        requires
            chunk.wf(),
        ensures
            final(self).wf(),
            (final(self)@, r) == run_from(
                MachineState { chunk: chunk@, ip: 0, stack: Seq::<T>::empty() },
            ),
    {
        self.init(chunk);
        self.ip = 0;
        self.reset_stack();
        self.run()
    }

    /// Executes from the instruction pointer until an instruction needs
    /// arithmetic, returns, or fails.
    pub fn run(&mut self) -> (r: Step<T>)
        requires
            old(self).wf(),
        ensures
            final(self).wf(),
            (final(self)@, r) == run_from(old(self)@),
    {
        loop
            invariant
                self.wf(),
                run_from(self@) == run_from(old(self)@),
            decreases self@.chunk.code.len() - self.ip,
        {
            if self.ip >= self.chunk.code_len() {
                return Step::Fault(InterpretResult::InterpretRuntimeError);
            }
            let byte = self.read_byte();
            let opcode = match OpCode::try_from(byte) {
                Ok(op) => op,
                Err(_) => return Step::Fault(InterpretResult::InterpretCompilerError),
            };
            match opcode {
                OpCode::OpReturn => {
                    return match self.pop_stack() {
                        Some(v) => Step::Done(v),
                        None => Step::Fault(InterpretResult::InterpretRuntimeError),
                    };
                },
                OpCode::OpNegate => {
                    return match self.pop_stack() {
                        Some(v) => Step::Negate(v),
                        None => Step::Fault(InterpretResult::InterpretRuntimeError),
                    };
                },
                OpCode::OpConstant => {
                    if self.ip >= self.chunk.code_len() {
                        return Step::Fault(InterpretResult::InterpretRuntimeError);
                    }
                    let index = self.chunk.get(self.ip);
                    if index >= self.chunk.constant_count() {
                        return Step::Fault(InterpretResult::InterpretRuntimeError);
                    }
                    self.ip = self.ip + 1;
                    let constant = self.chunk.get_constant(index);
                    self.push_stack(constant);
                },
                _ => {
                    return match self.binary_op() {
                        Some((a, b)) => Step::Binary(opcode, a, b),
                        None => Step::Fault(InterpretResult::InterpretRuntimeError),
                    };
                },
            }
        }
    }

    /// Pops the right operand, then the left one; leaves the stack as it was
    /// where it holds fewer than two values.
    fn binary_op(&mut self) -> (r: Option<(T, T)>)
        ensures
            final(self).chunk == old(self).chunk,
            final(self).ip == old(self).ip,
            ({
                let s = old(self)@.stack;
                if s.len() >= 2 {
                    r == Some((s[s.len() - 2], s[s.len() - 1]))
                        && final(self)@.stack == s.subrange(0, s.len() - 2)
                } else {
                    r is None && final(self)@.stack == s
                }
            }),
    {
        if self.stack.len() < 2 {
            return None;
        }
        let b = self.stack.pop().unwrap();
        let a = self.stack.pop().unwrap();
        Some((a, b))
    }

    fn read_byte(&mut self) -> (r: usize)
        requires
            old(self).ip < old(self)@.chunk.code.len(),
        ensures
            r == old(self)@.chunk.code[old(self).ip as int],
            final(self).ip == old(self).ip + 1,
            final(self).chunk == old(self).chunk,
            final(self).stack == old(self).stack,
    {
        let n = self.chunk.code_len();
        let val = self.chunk.get(self.ip);
        assert(self.ip < n);
        self.ip = self.ip + 1;
        val
    }

    fn reset_stack(&mut self)
        ensures
            final(self).chunk == old(self).chunk,
            final(self).ip == old(self).ip,
            final(self)@.stack == Seq::<T>::empty(),
    {
        self.stack.clear();
    }

    /// Pushes `value` on the operand stack: the caller hands back the result
    /// of a `Binary` or `Negate` step this way before it resumes.
    pub fn push_stack(&mut self, value: T)
        ensures
            final(self)@ == (MachineState { stack: old(self)@.stack.push(value), ..old(self)@ }),
            final(self).wf() == old(self).wf(),
    {
        self.stack.push(value);
    }

    /// Pops the top of the stack; `None` where it is empty.
    fn pop_stack(&mut self) -> (r: Option<T>)
        ensures
            final(self).chunk == old(self).chunk,
            final(self).ip == old(self).ip,
            old(self)@.stack.len() == 0 ==> r is None && final(self)@.stack == old(self)@.stack,
            old(self)@.stack.len() > 0 ==> r == Some(old(self)@.stack.last())
                && final(self)@.stack == old(self)@.stack.drop_last(),
    {
        self.stack.pop()
    }
}

/// A chunk made of `OpConstant index` and `OpReturn`, where `index` names a
/// constant of the pool, runs to `Done` with that constant.
pub proof fn lemma_constant_round_trip<T>(m: ChunkModel<T>, index: usize)
    requires
        m.code == seq![OpCode::OpConstant.spec_byte(), index, OpCode::OpReturn.spec_byte()],
        index < m.constants.len(),
    ensures
        run_from(MachineState { chunk: m, ip: 0, stack: Seq::<T>::empty() }).1 == Step::Done(
            m.constants[index as int],
        ),
{
    let s0 = MachineState { chunk: m, ip: 0, stack: Seq::<T>::empty() };
    let s1 = MachineState { chunk: m, ip: 2, stack: Seq::<T>::empty().push(m.constants[index as int]) };
    assert(run_from(s0) == run_from(s1));
    assert(s1.stack.last() == m.constants[index as int]);
}

/// A chunk with no code stops with a runtime error, whatever the stack holds.
pub proof fn lemma_empty_chunk_faults<T>(m: ChunkModel<T>, stack: Seq<T>)
    requires
        m.code.len() == 0,
    ensures
        run_from(MachineState { chunk: m, ip: 0, stack }).1 == Step::<T>::Fault(
            InterpretResult::InterpretRuntimeError,
        ),
{
}

/// A binary opcode as the first instruction, on an empty stack, stops with a
/// runtime error and leaves the stack empty.
pub proof fn lemma_binary_on_empty_stack_faults<T>(m: ChunkModel<T>)
    requires
        m.code.len() > 0,
        opcode_of(m.code[0]) matches Some(op) && is_binary(op),
    ensures
        run_from(MachineState { chunk: m, ip: 0, stack: Seq::<T>::empty() }).1 == Step::<T>::Fault(
            InterpretResult::InterpretRuntimeError,
        ),
        run_from(MachineState { chunk: m, ip: 0, stack: Seq::<T>::empty() }).0.stack == Seq::<
            T,
        >::empty(),
{
}

} // verus!
