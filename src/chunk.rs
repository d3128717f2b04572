use vstd::prelude::*;
use crate::value::Value;
use crate::value_array::ValueArray;

verus! {

/// Most constants one chunk can hold: a constant index is a single byte.
pub const MAX_CONSTANTS: usize = 256;

/// A unit of compiled bytecode: the code bytes, the source line of each code
/// byte, and the constant pool that `Constant` instructions index.
pub struct Chunk {
    code: Vec<u8>,
    lines: Vec<usize>,
    constants: ValueArray,
}

impl Chunk {
    /// The code bytes.
    pub closed spec fn code(&self) -> Seq<u8> {
        self.code@
    }

    /// The source line of each code byte.
    pub closed spec fn lines(&self) -> Seq<usize> {
        self.lines@
    }

    /// The constant pool.
    pub closed spec fn constants(&self) -> Seq<Value> {
        self.constants@
    }

    /// The code and the line table stay aligned, every code offset fits in a
    /// `usize`, and every constant has an index that fits in one byte.
    pub closed spec fn wf(&self) -> bool {
        &&& self.code@.len() == self.lines@.len()
        &&& self.code@.len() <= usize::MAX
        &&& self.constants@.len() <= MAX_CONSTANTS
    }

    /// In a well-formed chunk, code offsets and constant indices fit their
    /// machine types.
    pub proof fn lemma_wf_bounds(&self)
        requires
            self.wf(),
        ensures
            self.code().len() == self.lines().len(),
            self.code().len() <= usize::MAX,
            self.constants().len() <= MAX_CONSTANTS,
    {
    }

    /// An empty chunk.
    pub fn new() -> (r: Chunk)
        ensures
            r.wf(),
            r.code() == Seq::<u8>::empty(),
            r.lines() == Seq::<usize>::empty(),
            r.constants() == Seq::<Value>::empty(),
    {
        Chunk { code: Vec::new(), lines: Vec::new(), constants: ValueArray::new() }
    }

    /// Appends one code byte and the source line that produced it.
    pub fn write(&mut self, byte: u8, line: usize)
        requires
            old(self).wf(),
            old(self).code().len() < usize::MAX,
        ensures
            final(self).wf(),
            final(self).code() == old(self).code().push(byte),
            final(self).lines() == old(self).lines().push(line),
            final(self).constants() == old(self).constants(),
    {
        self.code.push(byte);
        self.lines.push(line);
    }

    /// Appends `value` to the constant pool and returns its index, which the
    /// caller emits as the operand of a `Constant` instruction. The pool must
    /// have room: see `has_room_for_constant`.
    pub fn add_constant(&mut self, value: Value) -> (r: usize)
        requires
            old(self).wf(),
            old(self).constants().len() < MAX_CONSTANTS,
        ensures
            final(self).wf(),
            r == old(self).constants().len(),
            final(self).constants() == old(self).constants().push(value),
            final(self).code() == old(self).code(),
            final(self).lines() == old(self).lines(),
    {
        self.constants.write(value);
        self.constants.len() - 1
    }

    /// Whether `add_constant` may be called: the pool holds fewer than
    /// `MAX_CONSTANTS` values.
    pub fn has_room_for_constant(&self) -> (r: bool)
        ensures
            r == (self.constants().len() < MAX_CONSTANTS),
    {
        self.constants.len() < MAX_CONSTANTS
    }

    /// Number of constants in the pool.
    pub fn constant_count(&self) -> (r: usize)
        ensures
            r == self.constants().len(),
    {
        self.constants.len()
    }

    /// An iterator over the code bytes.
    pub fn iter(&self) -> (r: std::slice::Iter<'_, u8>)
        ensures
            vstd::std_specs::slice::into_iter_elts(r) == self.code(),
    {
        self.code.as_slice().iter()
    }

    /// Number of code bytes.
    pub fn len(&self) -> (r: usize)
        ensures
            self.code().len() <= usize::MAX,
            r == self.code().len(),
    {
        self.code.len()
    }

    /// The code byte at `index`, which must be in range.
    pub fn index_code(&self, index: usize) -> (r: u8)
        requires
            index < self.code().len(),
        ensures
            r == self.code()[index as int],
    {
        self.code[index]
    }

    /// The constant at `index`, which must be in range.
    pub fn index_constants(&self, index: usize) -> (r: Value)
        requires
            index < self.constants().len(),
        ensures
            r == self.constants()[index as int],
    {
        self.constants.get(index)
    }

    /// The source line of the code byte at `index`, which must be in range.
    pub fn index_lines(&self, index: usize) -> (r: usize)
        requires
            self.wf(),
            index < self.code().len(),
        ensures
            r == self.lines()[index as int],
    {
        self.lines[index]
    }
}

impl Default for Chunk {
    fn default() -> (r: Chunk)
        ensures
            r.wf(),
            r.code() == Seq::<u8>::empty(),
            r.lines() == Seq::<usize>::empty(),
            r.constants() == Seq::<Value>::empty(),
    {
        Chunk::new()
    }
}

} // verus!
