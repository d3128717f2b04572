use vstd::prelude::*;
use crate::chunk::Chunk;
use crate::opcode::{decode, OpCode};
use crate::value::Value;

verus! {

/// What one decode step found.
#[derive(Clone, Copy, Debug, PartialEq, Eq, Structural)]
pub enum InstructionKind {
    /// An instruction without operands.
    Simple(OpCode),
    /// A `Constant` instruction: its operand, and the constant it names, if
    /// the pool holds one at that index.
    Constant(u8, Option<Value>),
    /// A `Constant` opcode in the last code byte, with no room for its operand.
    MissingOperand,
    /// A byte that encodes no opcode.
    Unknown(u8),
}

/// One decode step of the disassembler: where it started, how many bytes it
/// consumed, and what it found there.
#[derive(Clone, Copy, Debug, PartialEq, Eq, Structural)]
pub struct Instruction {
    pub offset: usize,
    pub width: usize,
    pub kind: InstructionKind,
}

/// The decode step at `offset`, which must lie inside `code`. An unknown byte,
/// and a `Constant` without room for its operand, consume one byte, so that
/// disassembly goes on over malformed code.
pub open spec fn decode_at(code: Seq<u8>, consts: Seq<Value>, offset: int) -> Instruction {
    let kind = match decode(code[offset]) {
        None => InstructionKind::Unknown(code[offset]),
        Some(OpCode::Constant) => {
            if offset + 1 < code.len() {
                let index = code[offset + 1];
                InstructionKind::Constant(
                    index,
                    if index < consts.len() {
                        Some(consts[index as int])
                    } else {
                        None
                    },
                )
            } else {
                InstructionKind::MissingOperand
            }
        },
        Some(op) => InstructionKind::Simple(op),
    };
    Instruction {
        offset: offset as usize,
        width: if kind is Constant {
            2
        } else {
            1
        },
        kind,
    }
}

/// The decode steps from `offset` to the end of `code`.
pub open spec fn disassemble_from(code: Seq<u8>, consts: Seq<Value>, offset: int) -> Seq<
    Instruction,
>
    decreases code.len() - offset,
{
    if offset < 0 || offset >= code.len() {
        Seq::empty()
    } else {
        let step = decode_at(code, consts, offset);
        seq![step] + disassemble_from(code, consts, offset + step.width)
    }
}

/// The disassembly of a whole chunk.
pub open spec fn disassembly(chunk: Chunk) -> Seq<Instruction> {
    disassemble_from(chunk.code(), chunk.constants(), 0)
}

/// Sum of the widths of the steps.
pub open spec fn total_width(steps: Seq<Instruction>) -> int
    decreases steps.len(),
{
    if steps.len() == 0 {
        0
    } else {
        steps[0].width + total_width(steps.drop_first())
    }
}

/// Whether the step consumed the byte at `offset`.
pub open spec fn covers(step: Instruction, offset: int) -> bool {
    step.offset <= offset < step.offset + step.width
}

/// Whether one of the steps consumed the byte at `offset`.
pub open spec fn covered(steps: Seq<Instruction>, offset: int) -> bool {
    exists|i: int| 0 <= i < steps.len() && covers(steps[i], offset)
}

proof fn lemma_disassemble_from(code: Seq<u8>, consts: Seq<Value>, offset: int)
    requires
        0 <= offset <= code.len() <= usize::MAX,
    ensures
        ({
            let r = disassemble_from(code, consts, offset);
            &&& total_width(r) == code.len() - offset
            &&& r.len() > 0 ==> r[0].offset == offset && r.last().offset + r.last().width
                == code.len()
            &&& forall|i: int|
                0 <= i < r.len() - 1 ==> #[trigger] r[i + 1].offset == r[i].offset + r[i].width
            &&& forall|i: int|
                0 <= i < r.len() ==> r[i].width >= 1 && offset <= r[i].offset && r[i].offset
                    + r[i].width <= code.len()
            &&& forall|i: int, j: int|
                0 <= i < j < r.len() ==> #[trigger] r[i].offset + r[i].width <= #[trigger] r[j].offset
            &&& forall|o: int| offset <= o < code.len() ==> #[trigger] covered(r, o)
        }),
    decreases code.len() - offset,
{
    if offset < code.len() {
        let step = decode_at(code, consts, offset);
        let next = offset + step.width;
        lemma_disassemble_from(code, consts, next);
        let tail = disassemble_from(code, consts, next);
        let r = disassemble_from(code, consts, offset);
        assert(r == seq![step] + tail);
        assert(r.drop_first() =~= tail);
        assert forall|i: int, j: int| 0 <= i < j < r.len() implies #[trigger] r[i].offset
            + r[i].width <= #[trigger] r[j].offset by {
            if i > 0 {
                assert(r[i] == tail[i - 1]);
            }
            assert(r[j] == tail[j - 1]);
        }
        assert forall|o: int| offset <= o < code.len() implies #[trigger] covered(r, o) by {
            if o < next {
                assert(covers(r[0], o));
            } else {
                assert(covered(tail, o));
                let k = choose|k: int| 0 <= k < tail.len() && covers(tail[k], o);
                assert(r[k + 1] == tail[k]);
            }
        }
        assert forall|i: int| 0 <= i < r.len() - 1 implies #[trigger] r[i + 1].offset == r[i].offset
            + r[i].width by {
            assert(r[i + 1] == tail[i]);
            if i > 0 {
                assert(r[i] == tail[i - 1]);
            }
        }
        if tail.len() > 0 {
            assert(r.last() == tail.last());
        }
        assert forall|i: int| 0 <= i < r.len() implies r[i].width >= 1 && offset <= r[i].offset
            && r[i].offset + r[i].width <= code.len() by {
            if i > 0 {
                assert(r[i] == tail[i - 1]);
            }
        }
    }
}

/// Disassembly visits every byte offset of the code exactly once: each offset
/// is consumed by one decode step and by no other, the steps follow one
/// another without gaps from offset 0, and their widths sum to the code length.
pub proof fn lemma_disassembly_visits_each_offset_once(chunk: Chunk)
    requires
        chunk.wf(),
    ensures
        ({
            let r = disassembly(chunk);
            let n = chunk.code().len() as int;
            &&& total_width(r) == n
            &&& r.len() > 0 ==> r[0].offset == 0 && r.last().offset + r.last().width == n
            &&& forall|i: int|
                0 <= i < r.len() - 1 ==> #[trigger] r[i + 1].offset == r[i].offset + r[i].width
            &&& forall|o: int| 0 <= o < n ==> #[trigger] covered(r, o)
            &&& forall|o: int, i: int, j: int|
                0 <= i < r.len() && 0 <= j < r.len() && covers(r[i], o) && covers(r[j], o)
                    ==> i == j
        }),
{
    let r = disassembly(chunk);
    chunk.lemma_wf_bounds();
    lemma_disassemble_from(chunk.code(), chunk.constants(), 0);
    assert forall|o: int, i: int, j: int|
        0 <= i < r.len() && 0 <= j < r.len() && covers(r[i], o) && covers(r[j], o) implies i
        == j by {
        if i < j {
            assert(r[i].offset + r[i].width <= r[j].offset);
        } else if j < i {
            assert(r[j].offset + r[j].width <= r[i].offset);
        }
    }
}

fn simple_instruction(op: OpCode, offset: usize) -> (r: Instruction)
    ensures
        r == (Instruction { offset, width: 1, kind: InstructionKind::Simple(op) }),
{
    Instruction { offset, width: 1, kind: InstructionKind::Simple(op) }
}

/// Decodes the `Constant` instruction whose opcode byte is at `offset`.
fn constant_instruction(chunk: &Chunk, offset: usize) -> (r: Instruction)
    requires
        offset < chunk.code().len(),
        decode(chunk.code()[offset as int]) == Some(OpCode::Constant),
    ensures
        r == decode_at(chunk.code(), chunk.constants(), offset as int),
{
    if chunk.len() - offset > 1 {
        let index = chunk.index_code(offset + 1);
        let value = if (index as usize) < chunk.constant_count() {
            Some(chunk.index_constants(index as usize))
        } else {
            None
        };
        Instruction { offset, width: 2, kind: InstructionKind::Constant(index, value) }
    } else {
        Instruction { offset, width: 1, kind: InstructionKind::MissingOperand }
    }
}

/// Decodes the instruction at `offset`.
fn disassemble_instruction(chunk: &Chunk, offset: usize) -> (r: Instruction)
    requires
        offset < chunk.code().len(),
    ensures
        r == decode_at(chunk.code(), chunk.constants(), offset as int),
{
    let byte = chunk.index_code(offset);
    match OpCode::from_byte(byte) {
        None => Instruction { offset, width: 1, kind: InstructionKind::Unknown(byte) },
        Some(OpCode::Constant) => constant_instruction(chunk, offset),
        Some(op) => simple_instruction(op, offset),
    }
}

/// Renders a chunk as its sequence of decode steps: starting at offset 0,
/// decode the instruction there and advance by its width, until the end of
/// the code. Never fails, whatever bytes the code holds.
pub fn dissamble_chunk(chunk: &Chunk) -> (r: Vec<Instruction>)
    ensures
        r@ == disassembly(*chunk),
{
    let mut steps: Vec<Instruction> = Vec::new();
    let mut offset: usize = 0;
    let n = chunk.len();
    while offset < n
        invariant
            n == chunk.code().len(),
            offset <= n,
            steps@ + disassemble_from(chunk.code(), chunk.constants(), offset as int)
                == disassembly(*chunk),
        decreases n - offset,
    {
        let step = disassemble_instruction(chunk, offset);
        proof {
            let code = chunk.code();
            let consts = chunk.constants();
            assert(disassemble_from(code, consts, offset as int) == seq![step]
                + disassemble_from(code, consts, offset + step.width));
            assert(steps@.push(step) + disassemble_from(code, consts, offset + step.width)
                =~= steps@ + disassemble_from(code, consts, offset as int));
        }
        steps.push(step);
        offset = offset + step.width;
    }
    proof {
        assert(steps@ + Seq::<Instruction>::empty() =~= steps@);
    }
    steps
}

} // verus!
