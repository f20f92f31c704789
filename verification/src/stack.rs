use vstd::prelude::*;

verus! {

/// The number of return addresses that the stack holds at most.
pub const STACK_SIZE: usize = 16;

/// The stack of return addresses: at most sixteen of them, last in first
/// out.
pub struct Stack {
    stack: [u16; STACK_SIZE],
    pointer: usize,
}

impl View for Stack {
    type V = Seq<u16>;

    /// The return addresses, the most recent one last.
    closed spec fn view(&self) -> Seq<u16> {
        if self.pointer <= STACK_SIZE {
            self.stack@.take(self.pointer as int)
        } else {
            self.stack@
        }
    }
}

impl Stack {
    #[verifier::type_invariant]
    spec fn pointer_in_range(self) -> bool {
        self.pointer <= STACK_SIZE
    }

    /// The stack never holds more than sixteen addresses.
    pub broadcast proof fn lemma_depth(self)
        ensures
            #[trigger] self@.len() <= STACK_SIZE,
    {
    }

    pub fn new() -> (s: Self)
        ensures
            s@ == Seq::<u16>::empty(),
    {
        let s = Stack { stack: [0u16; STACK_SIZE], pointer: 0 };
        assert(s@ =~= Seq::<u16>::empty());
        s
    }

    pub fn push(&mut self, value: u16)
        requires
            old(self)@.len() < STACK_SIZE,
        ensures
            final(self)@ == old(self)@.push(value),
    {
        proof {
            use_type_invariant(&*self);
        }
        self.stack[self.pointer] = value;
        self.pointer += 1;
        assert(self@ =~= old(self)@.push(value));
    }

    pub fn pop(&mut self) -> (value: u16)
        requires
            old(self)@.len() > 0,
        ensures
            value == old(self)@.last(),
            final(self)@ == old(self)@.drop_last(),
    {
        proof {
            use_type_invariant(&*self);
        }
        self.pointer -= 1;
        let value = self.stack[self.pointer];
        self.stack[self.pointer] = 0;
        assert(self@ =~= old(self)@.drop_last());
        value
    }

    pub fn peek(&self) -> (value: u16)
        requires
            self@.len() > 0,
        ensures
            value == self@.last(),
    {
        proof {
            use_type_invariant(self);
        }
        self.stack[self.pointer - 1]
    }

    pub fn is_empty(&self) -> (b: bool)
        ensures
            b == (self@.len() == 0),
    {
        proof {
            use_type_invariant(self);
        }
        self.pointer == 0
    }

    pub fn is_full(&self) -> (b: bool)
        ensures
            b == (self@.len() == STACK_SIZE),
    {
        proof {
            use_type_invariant(self);
        }
        self.pointer == STACK_SIZE
    }
}

/// Two addresses pushed come back in the opposite order, and the stack is
/// then what it was before: empty, if it was empty.
pub proof fn lemma_push_pop_round_trip(s: Seq<u16>, a: u16, b: u16)
    ensures
        s.push(a).push(b).last() == b,
        s.push(a).push(b).drop_last().last() == a,
        s.push(a).push(b).drop_last().drop_last() == s,
        s.len() == 0 ==> s.push(a).push(b).drop_last().drop_last().len() == 0,
{
    assert(s.push(a).push(b).drop_last() =~= s.push(a));
    assert(s.push(a).drop_last() =~= s);
}

} // verus!
