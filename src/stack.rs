use vstd::prelude::*;

use crate::STACK_CAPACITY;

verus! {

/// A fixed-capacity LIFO of return addresses.
#[derive(Debug)]
pub struct Chip8Stack {
    pub buffer: Vec<u16>,
    pub top: usize,
}

impl View for Chip8Stack {
    type V = Seq<u16>;

    /// The addresses on the stack, bottom first.
    open spec fn view(&self) -> Seq<u16> {
        self.buffer@.subrange(0, self.top as int)
    }
}

impl Chip8Stack {
    pub open spec fn wf(&self) -> bool {
        &&& self.buffer@.len() == STACK_CAPACITY
        &&& self.top <= STACK_CAPACITY
    }

    /// An empty stack with every slot zero.
    pub fn new() -> (r: Chip8Stack)
        ensures
            r.wf(),
            r@ == Seq::<u16>::empty(),
            r.top == 0,
            r.buffer@ == Seq::new(STACK_CAPACITY as nat, |k: int| 0u16),
    {
        let mut buffer: Vec<u16> = Vec::new();
        let mut k: usize = 0;
        while k < STACK_CAPACITY
            invariant
                k <= STACK_CAPACITY,
                buffer@ == Seq::new(k as nat, |j: int| 0u16),
            decreases STACK_CAPACITY - k,
        {
            buffer.push(0);
            k = k + 1;
            assert(buffer@ =~= Seq::new(k as nat, |j: int| 0u16));
        }
        let r = Chip8Stack { buffer, top: 0 };
        assert(r@ =~= Seq::<u16>::empty());
        r
    }

    /// Number of addresses on the stack.
    pub fn len(&self) -> (r: usize)
        requires
            self.wf(),
        ensures
            r == self@.len(),
    {
        self.top
    }

    /// Pushes `value` into the slot above the top; the stack must not be full.
    pub fn push(&mut self, value: u16)
        requires
            old(self).wf(),
            old(self)@.len() < STACK_CAPACITY,
        ensures
            final(self).wf(),
            final(self)@ == old(self)@.push(value),
            final(self).top == old(self).top + 1,
            final(self).buffer@ == old(self).buffer@.update(old(self).top as int, value),
    {
        self.buffer.set(self.top, value);
        self.top = self.top + 1;
        assert(self@ =~= old(self)@.push(value));
    }

    /// Pops the most recently pushed address; the stack must not be empty.
    /// The slots themselves are left as they are.
    pub fn pop(&mut self) -> (r: u16)
        requires
            old(self).wf(),
            old(self)@.len() > 0,
        ensures
            final(self).wf(),
            r == old(self)@.last(),
            r == old(self).buffer@[old(self).top - 1],
            final(self)@ == old(self)@.drop_last(),
            final(self).top == old(self).top - 1,
            final(self).buffer@ == old(self).buffer@,
    {
        self.top = self.top - 1;
        assert(self@ =~= old(self)@.drop_last());
        self.buffer[self.top]
    }
}

} // verus!
