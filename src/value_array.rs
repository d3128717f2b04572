use vstd::prelude::*;
use crate::value::Value;

verus! {

/// An append-only sequence of values: the constant pool of a chunk.
pub struct ValueArray(Vec<Value>);

impl View for ValueArray {
    type V = Seq<Value>;

    closed spec fn view(&self) -> Seq<Value> {
        self.0@
    }
}

impl ValueArray {
    /// An empty array.
    pub fn new() -> (r: ValueArray)
        ensures
            r@ == Seq::<Value>::empty(),
    {
        ValueArray(Vec::new())
    }

    /// Appends a value.
    pub fn write(&mut self, value: Value)
        ensures
            final(self)@ == old(self)@.push(value),
    {
        self.0.push(value);
    }

    /// Number of values held.
    pub fn len(&self) -> (r: usize)
        ensures
            r == self@.len(),
    {
        self.0.len()
    }

    /// The value at `index`.
    pub fn get(&self, index: usize) -> (r: Value)
        requires
            index < self@.len(),
        ensures
            r == self@[index as int],
    {
        self.0[index]
    }
}

impl Default for ValueArray {
    fn default() -> (r: ValueArray)
        ensures
            r@ == Seq::<Value>::empty(),
    {
        ValueArray::new()
    }
}

} // verus!
