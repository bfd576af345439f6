//! The machine's operand stack: a fixed-capacity last-in-first-out byte store.
//!
//! The stack is viewed as a sequence of bytes, oldest first; the last element
//! of the view is the top of the stack.

use vstd::prelude::*;

verus! {

/// Capacity of the operand stack in bytes.
pub const STACK_SIZE: usize = 512;

/// Everything that can abort an interpretation run.
#[derive(Clone, Copy, Debug, PartialEq, Eq, Structural)]
pub enum VmError {
    /// A value was needed from an empty (or too shallow) stack.
    StackUnderflow,
    /// A push was attempted on a full stack.
    StackOverflow,
    /// The fetched byte is not an assigned opcode.
    UnimplementedInstruction,
    /// The stack was not empty where the program asserted it would be.
    NonEmptyStackAssertion,
}

/// The operand stack.
#[derive(Clone)]
pub struct VM {
    stack: Vec<u8>,
}

impl View for VM {
    type V = Seq<u8>;

    closed spec fn view(&self) -> Seq<u8> {
        self.stack@
    }
}

impl VM {
    /// The stack never grows beyond its fixed capacity.
    pub open spec fn wf(&self) -> bool {
        self@.len() <= STACK_SIZE
    }

    /// A fresh, empty stack.
    pub fn new() -> (vm: VM)
        ensures
            vm@ == Seq::<u8>::empty(),
            vm.wf(),
    {
        VM { stack: Vec::new() }
    }

    /// Number of values currently on the stack.
    pub fn depth(&self) -> (n: usize)
        ensures
            n == self@.len(),
    {
        self.stack.len()
    }

    /// Remove and return the top value.
    pub fn pop(&mut self) -> (byte: u8)
        requires
            old(self)@.len() > 0,
        ensures
            byte == old(self)@.last(),
            final(self)@ == old(self)@.drop_last(),
            old(self).wf() ==> final(self).wf(),
    {
        self.stack.pop().unwrap()
    }

    /// Place a value on top of the stack.
    pub fn push(&mut self, byte: u8)
        requires
            old(self)@.len() < STACK_SIZE,
        ensures
            final(self)@ == old(self)@.push(byte),
            old(self).wf() ==> final(self).wf(),
    {
        self.stack.push(byte);
    }

    /// Whether the stack holds no values.
    pub fn is_empty(&self) -> (empty: bool)
        ensures
            empty == (self@.len() == 0),
    {
        self.stack.len() == 0
    }

    /// Forget every value on the stack.
    pub fn clear(&mut self)
        ensures
            final(self)@ == Seq::<u8>::empty(),
            final(self).wf(),
    {
        self.stack.clear();
    }
}

impl Default for VM {
    /// Same as `VM::new`: an empty stack.
    fn default() -> (vm: VM)
        ensures
            vm@ == Seq::<u8>::empty(),
            vm.wf(),
    {
        VM::new()
    }
}

} // verus!
