use vstd::prelude::*;

use crate::error::Chip8Error;

verus! {

/// Number of return addresses the call stack can hold.
pub const STACK_SIZE: usize = 16;

/// The call stack: a fixed block of sixteen slots and the number of slots in
/// use. Its view is the sequence of live return addresses, oldest first.
pub struct Stack {
    slots: [u16; 16],
    depth: usize,
}

impl View for Stack {
    type V = Seq<u16>;

    closed spec fn view(&self) -> Seq<u16> {
        self.slots@.subrange(0, self.depth as int)
    }
}

/// The stack after the addresses of `pushed` have been pushed onto `stack`
/// one after the other, the first of them first.
pub open spec fn pushed_all(stack: Seq<u16>, pushed: Seq<u16>) -> Seq<u16>
    decreases pushed.len(),
{
    if pushed.len() == 0 {
        stack
    } else {
        pushed_all(stack, pushed.drop_last()).push(pushed.last())
    }
}

/// The addresses that `n` pops on `stack` return, in the order in which
/// they come out.
pub open spec fn popped(stack: Seq<u16>, n: nat) -> Seq<u16>
    decreases n,
{
    if n == 0 {
        Seq::empty()
    } else {
        seq![stack.last()] + popped(stack.drop_last(), (n - 1) as nat)
    }
}

/// The stack that `n` pops on `stack` leave.
pub open spec fn left_after_pops(stack: Seq<u16>, n: nat) -> Seq<u16>
    decreases n,
{
    if n == 0 {
        stack
    } else {
        left_after_pops(stack.drop_last(), (n - 1) as nat)
    }
}

/// Last in, first out: after addresses have been pushed, as many as the
/// stack has room for, as many pops return them in reverse order and leave
/// the stack as it was before the pushes.
pub proof fn lemma_pops_reverse_pushes(stack: Seq<u16>, pushed: Seq<u16>)
    requires
        stack.len() + pushed.len() <= STACK_SIZE,
    ensures
        pushed_all(stack, pushed).len() == stack.len() + pushed.len(),
        popped(pushed_all(stack, pushed), pushed.len()) == pushed.reverse(),
        left_after_pops(pushed_all(stack, pushed), pushed.len()) == stack,
    decreases pushed.len(),
{
    if pushed.len() > 0 {
        let earlier = pushed.drop_last();
        let below = pushed_all(stack, earlier);
        lemma_pops_reverse_pushes(stack, earlier);
        let full = below.push(pushed.last());
        assert(full.drop_last() == below);
        assert(full.last() == pushed.last());
        assert(pushed.reverse() == seq![pushed.last()] + earlier.reverse());
    } else {
        assert(pushed.reverse() == Seq::<u16>::empty());
    }
}

impl Stack {
    /// What holds of every stack: the number of slots in use is at most the
    /// number of slots.
    #[verifier::type_invariant]
    pub closed spec fn bounded(self) -> bool {
        self.depth <= STACK_SIZE
    }

    /// A stack never holds more than sixteen addresses.
    pub proof fn lemma_bounded(self)
        requires
            self.bounded(),
        ensures
            self@.len() <= STACK_SIZE,
    {
    }

    /// An empty stack.
    pub fn new() -> (stack: Stack)
        ensures
            stack@ == Seq::<u16>::empty(),
    {
        Stack { slots: [0u16; 16], depth: 0 }
    }

    /// Number of return addresses currently stored.
    pub fn len(&self) -> (n: usize)
        ensures
            n == self@.len(),
            n <= STACK_SIZE,
    {
        proof {
            use_type_invariant(self);
        }
        self.depth
    }

    /// Stores `value` on top of the stack, unless the stack is full.
    pub fn push(&mut self, value: u16) -> (res: Result<(), Chip8Error>)
        ensures
            final(self)@.len() <= STACK_SIZE,
            old(self)@.len() < STACK_SIZE ==> res == Ok::<(), Chip8Error>(()) && final(self)@
                == old(self)@.push(value),
            old(self)@.len() >= STACK_SIZE ==> res == Err::<(), _>(Chip8Error::StackOverflow)
                && final(self)@ == old(self)@,
    {
        proof {
            use_type_invariant(&*self);
        }
        if self.depth >= STACK_SIZE {
            return Err(Chip8Error::StackOverflow);
        }
        self.slots[self.depth] = value;
        self.depth += 1;
        Ok(())
    }

    /// Removes and returns the most recently stored address, unless the stack
    /// is empty.
    pub fn pop(&mut self) -> (res: Result<u16, Chip8Error>)
        ensures
            old(self)@.len() > 0 ==> res == Ok::<u16, Chip8Error>(old(self)@.last())
                && final(self)@ == old(self)@.drop_last(),
            old(self)@.len() == 0 ==> res == Err::<u16, _>(Chip8Error::StackUnderflow)
                && final(self)@ == old(self)@,
            final(self)@.len() <= STACK_SIZE,
    {
        proof {
            use_type_invariant(&*self);
        }
        if self.depth == 0 {
            return Err(Chip8Error::StackUnderflow);
        }
        self.depth -= 1;
        Ok(self.slots[self.depth])
    }
}

} // verus!
