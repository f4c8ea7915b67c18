//! The bounded stack of return addresses.

use vstd::prelude::*;

verus! {

pub const STACK_SIZE: usize = 16;

#[derive(Debug, Clone, Copy, PartialEq, Eq)]
pub enum StackError {
    StackOverflow,
    StackUnderflow,
}

/// What `push` of `value` returns on a stack that holds `items`, and what the
/// stack holds afterwards: a full stack refuses the value and keeps its
/// contents.
pub open spec fn push_spec(items: Seq<u16>, value: u16) -> (Result<(), StackError>, Seq<u16>) {
    if items.len() < STACK_SIZE {
        (Ok(()), items.push(value))
    } else {
        (Err(StackError::StackOverflow), items)
    }
}

/// What `pop` returns on a stack that holds `items`, and what the stack holds
/// afterwards: the value pushed last leaves; an empty stack stays empty.
pub open spec fn pop_spec(items: Seq<u16>) -> (Result<u16, StackError>, Seq<u16>) {
    if items.len() > 0 {
        (Ok(items.last()), items.drop_last())
    } else {
        (Err(StackError::StackUnderflow), items)
    }
}

/// What the stack holds after every value of `values` was pushed in order
/// onto a stack that held `items`, refused values left out.
pub open spec fn push_all_spec(items: Seq<u16>, values: Seq<u16>) -> Seq<u16>
    decreases values.len(),
{
    if values.len() == 0 {
        items
    } else {
        push_all_spec(push_spec(items, values.first()).1, values.drop_first())
    }
}

/// The values that `count` pops return in order, taken from a stack that
/// holds `items`; pops of an empty stack add nothing.
pub open spec fn pop_many_spec(items: Seq<u16>, count: nat) -> Seq<u16>
    decreases count,
{
    if count == 0 {
        Seq::empty()
    } else {
        match pop_spec(items).0 {
            Ok(value) => seq![value] + pop_many_spec(pop_spec(items).1, (count - 1) as nat),
            Err(_) => pop_many_spec(pop_spec(items).1, (count - 1) as nat),
        }
    }
}

/// A stack of at most `STACK_SIZE` return addresses. Its view is the sequence
/// of the addresses it holds, the one pushed first at index 0.
pub struct Stack {
    data: [u16; STACK_SIZE],
    top: i32,
}

impl View for Stack {
    type V = Seq<u16>;

    closed spec fn view(&self) -> Seq<u16> {
        self.data@.subrange(0, self.top + 1)
    }
}

impl Stack {
    #[verifier::type_invariant]
    spec fn inv(self) -> bool {
        -1 <= self.top < STACK_SIZE
    }

    /// The number of addresses on the stack, never above `STACK_SIZE`.
    pub fn len(&self) -> (count: usize)
        ensures
            count == self@.len(),
            count <= STACK_SIZE,
    {
        proof {
            use_type_invariant(self);
        }
        (self.top + 1) as usize
    }

    /// An empty stack.
    pub fn new() -> (stack: Stack)
        ensures
            stack@ == Seq::<u16>::empty(),
    {
        let stack = Stack { data: [0; STACK_SIZE], top: -1 };
        assert(stack@ =~= Seq::<u16>::empty());
        stack
    }

    /// Puts `value` on top, or fails with `StackOverflow` where the stack
    /// already holds `STACK_SIZE` addresses and then changes nothing.
    pub fn push(&mut self, value: u16) -> (pushed: Result<(), StackError>)
        ensures
            (pushed, final(self)@) == push_spec(old(self)@, value),
            old(self)@.len() <= STACK_SIZE,
    {
        proof {
            use_type_invariant(&*self);
        }
        if self.top < 15 {
            self.top += 1;
            self.data[self.top as usize] = value;
            assert(self@ =~= old(self)@.push(value));
            Ok(())
        } else {
            Err(StackError::StackOverflow)
        }
    }

    /// Takes the address on top, or fails with `StackUnderflow` where the
    /// stack is empty.
    pub fn pop(&mut self) -> (popped: Result<u16, StackError>)
        ensures
            (popped, final(self)@) == pop_spec(old(self)@),
            old(self)@.len() <= STACK_SIZE,
    {
        proof {
            use_type_invariant(&*self);
        }
        if self.top >= 0 {
            let r: u16 = self.data[self.top as usize];
            self.top -= 1;
            assert(self@ =~= old(self)@.drop_last());
            Ok(r)
        } else {
            Err(StackError::StackUnderflow)
        }
    }
}

/// A pop after a successful push returns the pushed value and leaves the
/// stack as it was before the push.
pub proof fn lemma_push_pop_round_trip(items: Seq<u16>, value: u16)
    requires
        items.len() < STACK_SIZE,
    ensures
        push_spec(items, value).0 is Ok,
        pop_spec(push_spec(items, value).1) == (Ok::<u16, StackError>(value), items),
{
    assert(items.push(value).drop_last() =~= items);
}

/// Pushing onto a stack with room for all of `values` appends them.
pub proof fn lemma_push_all_appends(items: Seq<u16>, values: Seq<u16>)
    requires
        items.len() + values.len() <= STACK_SIZE,
    ensures
        push_all_spec(items, values) == items + values,
    decreases values.len(),
{
    if values.len() == 0 {
        assert(items + values =~= items);
    } else {
        lemma_push_all_appends(items.push(values.first()), values.drop_first());
        assert(items.push(values.first()) + values.drop_first() =~= items + values);
    }
}

/// Popping a stack as often as it holds addresses returns them in the
/// reverse of the order in which they stand.
pub proof fn lemma_pop_many_reverses(items: Seq<u16>)
    ensures
        pop_many_spec(items, items.len()) == items.reverse(),
    decreases items.len(),
{
    if items.len() == 0 {
        assert(items.reverse() =~= Seq::<u16>::empty());
    } else {
        lemma_pop_many_reverses(items.drop_last());
        assert(seq![items.last()] + items.drop_last().reverse() =~= items.reverse());
    }
}

/// Last in, first out: values pushed onto an empty stack that has room for
/// them come back, popped as often as there are values, in reverse order of
/// insertion.
pub proof fn lemma_last_in_first_out(values: Seq<u16>)
    requires
        values.len() <= STACK_SIZE,
    ensures
        pop_many_spec(push_all_spec(Seq::empty(), values), values.len()) == values.reverse(),
{
    lemma_push_all_appends(Seq::empty(), values);
    assert(Seq::<u16>::empty() + values =~= values);
    lemma_pop_many_reverses(values);
}

} // verus!
