//! Instructions and instruction streams.

use vstd::prelude::*;

verus! {

/// A value that a `Push` instruction carries in the instruction itself.
#[derive(Debug, Clone, Copy, PartialEq, Eq, Structural)]
pub enum PushOperand {
    Integer(i32),
    Boolean(bool),
}

/// One instruction of the virtual machine.
#[derive(Debug, PartialEq, Eq)]
pub enum Opcode {
    /// Does nothing.
    Nop,
    /// Pushes an immediate value.
    Push(PushOperand),
    /// Pushes a copy of the pool entry at the index.
    Ldc(usize),
    /// Pushes a copy of the local at the index.
    LLoad(usize),
    /// Pops a value and stores it in the local at the index.
    LStore(usize),
    /// Pops two integers and pushes their wrapping sum.
    IAdd,
    /// Pops two integers and pushes their wrapping difference, left minus right.
    ISub,
    /// Pops two integers and pushes whether the left one is greater than the right one.
    ICmpGT,
    /// Continues at the offset.
    Jump(usize),
    /// Pops a boolean and continues at the offset when it is false.
    JumpIfFalse(usize),
    /// Calls the function of that name.
    Invoke(String),
    /// Leaves the current function without a value.
    Return,
    /// Leaves the current function and hands the top of its stack to the caller.
    IReturn,
}

impl Clone for Opcode {
    fn clone(&self) -> (res: Self)
        ensures
            res == *self,
    {
        match self {
            Opcode::Nop => Opcode::Nop,
            Opcode::Push(v) => Opcode::Push(*v),
            Opcode::Ldc(i) => Opcode::Ldc(*i),
            Opcode::LLoad(i) => Opcode::LLoad(*i),
            Opcode::LStore(i) => Opcode::LStore(*i),
            Opcode::IAdd => Opcode::IAdd,
            Opcode::ISub => Opcode::ISub,
            Opcode::ICmpGT => Opcode::ICmpGT,
            Opcode::Jump(o) => Opcode::Jump(*o),
            Opcode::JumpIfFalse(o) => Opcode::JumpIfFalse(*o),
            Opcode::Invoke(name) => Opcode::Invoke(name.clone()),
            Opcode::Return => Opcode::Return,
            Opcode::IReturn => Opcode::IReturn,
        }
    }
}

/// A growable sequence of instructions.
#[derive(Debug, PartialEq, Eq)]
pub struct ByteCodeStream {
    pub code: Vec<Opcode>,
}

impl View for ByteCodeStream {
    type V = Seq<Opcode>;

    open spec fn view(&self) -> Seq<Opcode> {
        self.code@
    }
}

impl ByteCodeStream {
    pub fn empty() -> (stream: Self)
        ensures
            stream@ == Seq::<Opcode>::empty(),
    {
        Self { code: Vec::new() }
    }

    pub fn from(code: Vec<Opcode>) -> (stream: Self)
        ensures
            stream.code == code,
    {
        Self { code }
    }

    /// Appends an instruction.
    pub fn push(&mut self, opcode: Opcode)
        ensures
            final(self)@ == old(self)@.push(opcode),
    {
        self.code.push(opcode)
    }

    /// Overwrites the instruction at `offset`. Returns `false`, and changes nothing,
    /// when the stream has no instruction there.
    pub fn push_at(&mut self, opcode: Opcode, offset: usize) -> (done: bool)
        ensures
            done == (offset < old(self)@.len()),
            done ==> final(self)@ == old(self)@.update(offset as int, opcode),
            !done ==> final(self)@ == old(self)@,
    {
        if offset >= self.code.len() {
            return false;
        }
        self.code[offset] = opcode;
        true
    }

    pub fn get_at(&self, offset: usize) -> (op: Option<&Opcode>)
        ensures
            op == (if offset < self@.len() {
                Some(&self@[offset as int])
            } else {
                None
            }),
    {
        if offset < self.code.len() {
            Some(&self.code[offset])
        } else {
            None
        }
    }

    /// The offset that the next pushed instruction will get.
    pub fn get_pos(&self) -> (pos: usize)
        ensures
            pos == self@.len(),
    {
        self.code.len()
    }

    pub fn clear(&mut self)
        ensures
            final(self)@ == Seq::<Opcode>::empty(),
    {
        self.code.clear()
    }
}

impl Clone for ByteCodeStream {
    fn clone(&self) -> (res: Self)
        ensures
            res@ == self@,
    {
        let mut code: Vec<Opcode> = Vec::new();
        let mut i: usize = 0;
        while i < self.code.len()
            invariant
                i <= self.code@.len(),
                code@ == self.code@.subrange(0, i as int),
            decreases self.code@.len() - i,
        {
            code.push(self.code[i].clone());
            i += 1;
            assert(code@ =~= self.code@.subrange(0, i as int));
        }
        assert(code@ =~= self.code@);
        Self { code }
    }
}

} // verus!
