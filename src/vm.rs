use vstd::prelude::*;
use crate::chunk::Chunk;
use crate::chunk::MAX_CONSTANTS;
use crate::compiler::{compile, compiles};
use crate::opcode::{decode, encode, OpCode};
use crate::value::Value;

verus! {

/// The two disjoint ways an interpretation can fail.
#[derive(Clone, Copy, Debug, PartialEq, Eq, Structural)]
pub enum InterpretError {
    /// The front end rejected the source.
    CompileError,
    /// Execution stopped: stack underflow, a byte that encodes no opcode, a
    /// `Constant` without a valid operand, or the code ran out before `Return`.
    RuntimeError,
}

pub type InterpretResult = Result<(), InterpretError>;

/// Floating-point work that the VM hands to its host. Operands are given in
/// the order they were pushed: for `Subtract(x, y)` the host computes `x - y`.
/// The host pushes the result back with `VM::resume`.
#[derive(Clone, Copy, Debug, PartialEq, Eq, Structural)]
pub enum Arithmetic {
    Negate(Value),
    Add(Value, Value),
    Subtract(Value, Value),
    Multiply(Value, Value),
    Divide(Value, Value),
}

/// Why a run stopped: the program halted (on `Return`, or on the first
/// error), or an arithmetic instruction needs its result from the host.
#[derive(Clone, Copy, Debug, PartialEq, Eq)]
pub enum Outcome {
    Finished(InterpretResult),
    Compute(Arithmetic),
}

/// The outcome of a run that stopped on a runtime error.
pub open spec fn runtime_error() -> Outcome {
    Outcome::Finished(Err(InterpretError::RuntimeError))
}

/// Number of stack operands an arithmetic opcode consumes.
pub open spec fn arity(op: OpCode) -> nat {
    match op {
        OpCode::Negate => 1,
        _ => 2,
    }
}

/// The request an arithmetic opcode makes of the host, its operands taken
/// from the top of `stack` (the right-hand operand on top).
pub open spec fn request(op: OpCode, stack: Seq<Value>) -> Arithmetic {
    let n = stack.len() as int;
    match op {
        OpCode::Negate => Arithmetic::Negate(stack[n - 1]),
        OpCode::Add => Arithmetic::Add(stack[n - 2], stack[n - 1]),
        OpCode::Subtract => Arithmetic::Subtract(stack[n - 2], stack[n - 1]),
        OpCode::Multiply => Arithmetic::Multiply(stack[n - 2], stack[n - 1]),
        _ => Arithmetic::Divide(stack[n - 2], stack[n - 1]),
    }
}

/// Executing `code` from `ip` with operand stack `stack`, up to the first
/// instruction that halts or needs the host: the final instruction pointer,
/// the final stack, and why the run stopped. Control only moves forward.
pub open spec fn run_from(code: Seq<u8>, consts: Seq<Value>, ip: int, stack: Seq<Value>) -> (
    int,
    Seq<Value>,
    Outcome,
)
    decreases code.len() - ip,
{
    if ip < 0 || ip >= code.len() {
        (ip, stack, runtime_error())
    } else {
        match decode(code[ip]) {
            None => (ip + 1, stack, runtime_error()),
            Some(OpCode::Constant) => {
                if ip + 1 >= code.len() {
                    (ip + 1, stack, runtime_error())
                } else if code[ip + 1] >= consts.len() {
                    (ip + 2, stack, runtime_error())
                } else {
                    run_from(code, consts, ip + 2, stack.push(consts[code[ip + 1] as int]))
                }
            },
            Some(OpCode::Return) => (ip + 1, stack, Outcome::Finished(Ok(()))),
            Some(op) => {
                if stack.len() < arity(op) {
                    (ip + 1, stack, runtime_error())
                } else {
                    (
                        ip + 1,
                        stack.subrange(0, stack.len() - arity(op)),
                        Outcome::Compute(request(op, stack)),
                    )
                }
            },
        }
    }
}

/// Control only moves forward: a run from an instruction inside the code
/// stops further on, and never past the end of the code.
pub proof fn lemma_run_moves_forward(code: Seq<u8>, consts: Seq<Value>, ip: int, stack: Seq<Value>)
    requires
        0 <= ip < code.len(),
    ensures
        ip < run_from(code, consts, ip, stack).0 <= code.len(),
    decreases code.len() - ip,
{
    if decode(code[ip]) == Some(OpCode::Constant) && ip + 1 < code.len() && code[ip + 1]
        < consts.len() {
        let next = stack.push(consts[code[ip + 1] as int]);
        if ip + 2 < code.len() {
            lemma_run_moves_forward(code, consts, ip + 2, next);
        } else {
            assert(run_from(code, consts, ip + 2, next).0 == ip + 2);
        }
    }
}

/// A value added to a constant pool of any size below the limit, then loaded
/// by `Constant <its index>` and followed by `Return`, is what the run leaves
/// on top of the stack, bit for bit, and the run succeeds.
pub proof fn lemma_constant_round_trip(pool: Seq<Value>, v: Value)
    requires
        pool.len() < MAX_CONSTANTS,
    ensures
        ({
            let code = seq![encode(OpCode::Constant), pool.len() as u8, encode(OpCode::Return)];
            run_from(code, pool.push(v), 0, Seq::empty()) == (
                3int,
                seq![v],
                Outcome::Finished(Ok(())),
            )
        }),
{
    let code = seq![encode(OpCode::Constant), pool.len() as u8, encode(OpCode::Return)];
    let consts = pool.push(v);
    assert(decode(code[0]) == Some(OpCode::Constant));
    assert(code[1] as int == pool.len());
    assert(decode(code[2]) == Some(OpCode::Return));
    assert(Seq::<Value>::empty().push(consts[code[1] as int]) =~= seq![v]);
    assert(run_from(code, consts, 2, seq![v]) == (3int, seq![v], Outcome::Finished(Ok(()))));
}

/// The execution engine: an instruction pointer and an operand stack over one
/// borrowed chunk, and the source that the chunk was compiled from.
pub struct VM<'a> {
    chunk: &'a Chunk,
    ip: usize,
    source: &'a [u8],
    stack: Vec<Value>,
}

impl<'a> VM<'a> {
    pub closed spec fn chunk(&self) -> Chunk {
        *self.chunk
    }

    pub closed spec fn ip(&self) -> int {
        self.ip as int
    }

    pub closed spec fn source(&self) -> Seq<u8> {
        self.source@
    }

    pub closed spec fn stack(&self) -> Seq<Value> {
        self.stack@
    }

    /// The instruction pointer never passes the end of the code.
    pub closed spec fn wf(&self) -> bool {
        self.ip <= self.chunk.code().len()
    }

    /// What `run` computes from the current state.
    pub open spec fn run_spec(&self) -> (int, Seq<Value>, Outcome) {
        run_from(self.chunk().code(), self.chunk().constants(), self.ip(), self.stack())
    }

    /// A VM in the ready state: at the start of `chunk`, with an empty stack.
    pub fn new(chunk: &'a Chunk, source: &'a [u8]) -> (r: VM<'a>)
        ensures
            r.wf(),
            r.chunk() == *chunk,
            r.source() == source@,
            r.ip() == 0,
            r.stack() == Seq::<Value>::empty(),
    {
        VM { chunk, ip: 0, source, stack: Vec::new() }
    }

    /// The value on top of the operand stack, if any.
    pub fn stack_top(&self) -> (r: Option<Value>)
        ensures
            r == (if self.stack().len() == 0 {
                None
            } else {
                Some(self.stack().last())
            }),
    {
        if self.stack.len() == 0 {
            None
        } else {
            Some(self.stack[self.stack.len() - 1])
        }
    }

    /// Number of values on the operand stack.
    pub fn stack_len(&self) -> (r: usize)
        ensures
            r == self.stack().len(),
    {
        self.stack.len()
    }

    /// Runs the front end over the source, then the chunk. A source that the
    /// front end rejects gives `CompileError` without executing anything;
    /// otherwise this is `run`.
    pub fn interpret(&mut self) -> (r: Outcome)
        requires
            old(self).wf(),
        ensures
            final(self).wf(),
            final(self).chunk() == old(self).chunk(),
            final(self).source() == old(self).source(),
            compiles(old(self).source()) ==> (final(self).ip(), final(self).stack(), r)
                == old(self).run_spec(),
            !compiles(old(self).source()) ==> {
                &&& r == Outcome::Finished(Err(InterpretError::CompileError))
                &&& final(self).ip() == old(self).ip()
                &&& final(self).stack() == old(self).stack()
            },
    {
        if !compile(self.source) {
            return Outcome::Finished(Err(InterpretError::CompileError));
        }
        self.run()
    }

    /// Executes from the current instruction until the program halts or an
    /// arithmetic instruction needs its result from the host. `Return`
    /// leaves the stack as it is, so the host can read the program's result
    /// from its top.
    pub fn run(&mut self) -> (r: Outcome)
        requires
            old(self).wf(),
        ensures
            final(self).wf(),
            final(self).chunk() == old(self).chunk(),
            final(self).source() == old(self).source(),
            (final(self).ip(), final(self).stack(), r) == old(self).run_spec(),
    {
        loop
            invariant
                self.wf(),
                self.chunk() == old(self).chunk(),
                self.source() == old(self).source(),
                self.run_spec() == old(self).run_spec(),
            decreases self.chunk().code().len() - self.ip(),
        {
            let byte = match self.read_byte() {
                None => return Outcome::Finished(Err(InterpretError::RuntimeError)),
                Some(b) => b,
            };
            match OpCode::from_byte(byte) {
                None => return Outcome::Finished(Err(InterpretError::RuntimeError)),
                Some(OpCode::Constant) => {
                    match self.read_constant() {
                        None => return Outcome::Finished(Err(InterpretError::RuntimeError)),
                        Some(v) => self.push_stack(v),
                    }
                },
                Some(OpCode::Return) => return Outcome::Finished(Ok(())),
                Some(OpCode::Negate) => {
                    match self.pop_stack() {
                        None => return Outcome::Finished(Err(InterpretError::RuntimeError)),
                        Some(x) => return Outcome::Compute(Arithmetic::Negate(x)),
                    }
                },
                Some(op) => {
                    match self.pop_operands() {
                        None => return Outcome::Finished(Err(InterpretError::RuntimeError)),
                        Some((x, y)) => {
                            let a = match op {
                                OpCode::Add => Arithmetic::Add(x, y),
                                OpCode::Subtract => Arithmetic::Subtract(x, y),
                                OpCode::Multiply => Arithmetic::Multiply(x, y),
                                _ => Arithmetic::Divide(x, y),
                            };
                            return Outcome::Compute(a);
                        },
                    }
                },
            }
        }
    }

    /// Pushes the host's result of the last `Compute` request and runs on,
    /// as `run` does.
    pub fn resume(&mut self, value: Value) -> (r: Outcome)
        requires
            old(self).wf(),
        ensures
            final(self).wf(),
            final(self).chunk() == old(self).chunk(),
            final(self).source() == old(self).source(),
            (final(self).ip(), final(self).stack(), r) == run_from(
                old(self).chunk().code(),
                old(self).chunk().constants(),
                old(self).ip(),
                old(self).stack().push(value),
            ),
    {
        self.push_stack(value);
        self.run()
    }

    /// Fetches the byte at the instruction pointer and steps past it; `None`
    /// at the end of the code.
    fn read_byte(&mut self) -> (r: Option<u8>)
        requires
            old(self).wf(),
        ensures
            final(self).wf(),
            final(self).chunk() == old(self).chunk(),
            final(self).source() == old(self).source(),
            final(self).stack() == old(self).stack(),
            old(self).ip() < old(self).chunk().code().len() ==> {
                &&& r == Some(old(self).chunk().code()[old(self).ip()])
                &&& final(self).ip() == old(self).ip() + 1
            },
            old(self).ip() >= old(self).chunk().code().len() ==> r is None && final(self).ip()
                == old(self).ip(),
    {
        if self.ip < self.chunk.len() {
            let b = self.chunk.index_code(self.ip);
            self.ip = self.ip + 1;
            Some(b)
        } else {
            None
        }
    }

    /// Reads a constant-pool index operand and resolves it; `None` when the
    /// operand is missing or names no constant.
    fn read_constant(&mut self) -> (r: Option<Value>)
        requires
            old(self).wf(),
        ensures
            final(self).wf(),
            final(self).chunk() == old(self).chunk(),
            final(self).source() == old(self).source(),
            final(self).stack() == old(self).stack(),
            ({
                let code = old(self).chunk().code();
                let consts = old(self).chunk().constants();
                let ip = old(self).ip();
                if ip >= code.len() {
                    r is None && final(self).ip() == ip
                } else if code[ip] >= consts.len() {
                    r is None && final(self).ip() == ip + 1
                } else {
                    r == Some(consts[code[ip] as int]) && final(self).ip() == ip + 1
                }
            }),
    {
        match self.read_byte() {
            None => None,
            Some(index) => {
                if (index as usize) < self.chunk.constant_count() {
                    Some(self.chunk.index_constants(index as usize))
                } else {
                    None
                }
            },
        }
    }

    fn push_stack(&mut self, value: Value)
        ensures
            final(self).chunk() == old(self).chunk(),
            final(self).source() == old(self).source(),
            final(self).ip() == old(self).ip(),
            final(self).stack() == old(self).stack().push(value),
    {
        self.stack.push(value);
    }

    /// Pops the top of the stack; `None`, with the stack unchanged, when it is
    /// empty.
    fn pop_stack(&mut self) -> (r: Option<Value>)
        ensures
            final(self).chunk() == old(self).chunk(),
            final(self).source() == old(self).source(),
            final(self).ip() == old(self).ip(),
            old(self).stack().len() == 0 ==> r is None && final(self).stack() == old(self).stack(),
            old(self).stack().len() > 0 ==> r == Some(old(self).stack().last())
                && final(self).stack() == old(self).stack().drop_last(),
    {
        self.stack.pop()
    }

    /// Pops the right-hand operand, then the left-hand one, and returns them
    /// as (left, right); `None`, with the stack unchanged, when fewer than two
    /// values are on it.
    fn pop_operands(&mut self) -> (r: Option<(Value, Value)>)
        ensures
            final(self).chunk() == old(self).chunk(),
            final(self).source() == old(self).source(),
            final(self).ip() == old(self).ip(),
            ({
                let s = old(self).stack();
                if s.len() < 2 {
                    r is None && final(self).stack() == s
                } else {
                    r == Some((s[s.len() - 2], s[s.len() - 1])) && final(self).stack() == s.subrange(
                        0,
                        s.len() - 2,
                    )
                }
            }),
    {
        if self.stack.len() < 2 {
            return None;
        }
        let y = self.stack.pop().unwrap();
        let x = self.stack.pop().unwrap();
        proof {
            assert(self.stack@ =~= old(self).stack@.subrange(0, old(self).stack@.len() - 2));
        }
        Some((x, y))
    }
}

} // verus!
