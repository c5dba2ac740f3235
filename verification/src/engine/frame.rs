//! Call frames: the locals and the operand stack of one function call in progress.

use vstd::prelude::*;
use crate::object::Object;
use crate::stack::Stack;

verus! {

/// The locals of a frame: a fixed number of values, found by index.
#[derive(Debug)]
pub struct Locals {
    pub inner: Vec<Object>,
}

impl View for Locals {
    type V = Seq<Object>;

    open spec fn view(&self) -> Seq<Object> {
        self.inner@
    }
}

/// The value that every local holds when its frame is made.
pub open spec fn zero() -> Object {
    Object::Integer(0)
}

/// `count` locals that all hold the zero value.
pub open spec fn zeros(count: nat) -> Seq<Object> {
    Seq::new(count, |i: int| zero())
}

impl Locals {
    /// `max_locals` locals that all hold the zero value.
    pub fn new(max_locals: usize) -> (locals: Self)
        ensures
            locals@ == zeros(max_locals as nat),
    {
        let mut inner: Vec<Object> = Vec::new();
        let mut i: usize = 0;
        while i < max_locals
            invariant
                i <= max_locals,
                inner@ == zeros(i as nat),
            decreases max_locals - i,
        {
            inner.push(Object::Integer(0));
            i += 1;
            assert(inner@ =~= zeros(i as nat));
        }
        Self { inner }
    }

    pub fn get_at(&self, index: usize) -> (value: Option<&Object>)
        ensures
            value == (if index < self@.len() {
                Some(&self@[index as int])
            } else {
                None
            }),
    {
        if index < self.inner.len() {
            Some(&self.inner[index])
        } else {
            None
        }
    }

    pub fn set_at(&mut self, index: usize, o: Object)
        requires
            index < old(self)@.len(),
        ensures
            final(self)@ == old(self)@.update(index as int, o),
    {
        self.inner[index] = o;
    }

    pub fn len(&self) -> (n: usize)
        ensures
            n == self@.len(),
    {
        self.inner.len()
    }
}

/// One function call in progress.
#[derive(Debug)]
pub struct Frame {
    /// The offset of the next instruction.
    pub ip: usize,
    pub locals: Locals,
    /// The name of the function.
    pub name: String,
    /// The place of the function in the engine's table.
    pub function: usize,
    pub stack: Stack<Object>,
}

/// The mathematical content of a frame.
pub struct FrameView {
    pub ip: usize,
    pub locals: Seq<Object>,
    pub name: Seq<char>,
    pub function: usize,
    pub stack: Seq<Object>,
}

impl View for Frame {
    type V = FrameView;

    open spec fn view(&self) -> FrameView {
        FrameView {
            ip: self.ip,
            locals: self.locals@,
            name: self.name@,
            function: self.function,
            stack: self.stack@,
        }
    }
}

impl FrameView {
    /// The frame in which a call of a function starts.
    pub open spec fn fresh(name: Seq<char>, function: usize, max_locals: nat) -> FrameView {
        FrameView { ip: 0, locals: zeros(max_locals), name, function, stack: Seq::empty() }
    }
}

impl Frame {
    /// The frame in which a call of the function starts: at its first instruction, with
    /// zeroed locals and an empty stack.
    pub fn new(name: String, function: usize, max_locals: usize) -> (frame: Self)
        ensures
            frame@ == FrameView::fresh(name@, function, max_locals as nat),
    {
        Self { ip: 0, name, function, stack: Stack::new(), locals: Locals::new(max_locals) }
    }

    pub fn push(&mut self, o: Object)
        ensures
            final(self)@ == (FrameView { stack: old(self)@.stack.push(o), ..old(self)@ }),
    {
        self.stack.push(o);
    }

    /// Takes the top off the operand stack, or returns `None` when the stack is empty.
    pub fn pop(&mut self) -> (top: Option<Object>)
        ensures
            old(self)@.stack.len() == 0 ==> top.is_none() && final(self)@ == old(self)@,
            old(self)@.stack.len() > 0 ==> top == Some(old(self)@.stack.last()) && final(self)@
                == (FrameView { stack: old(self)@.stack.drop_last(), ..old(self)@ }),
    {
        self.stack.pop()
    }

    pub fn store(&mut self, idx: usize, o: Object)
        requires
            idx < old(self)@.locals.len(),
        ensures
            final(self)@ == (FrameView {
                locals: old(self)@.locals.update(idx as int, o),
                ..old(self)@
            }),
    {
        self.locals.set_at(idx, o);
    }

    pub fn load(&self, idx: usize) -> (value: Option<&Object>)
        ensures
            value == (if idx < self@.locals.len() {
                Some(&self@.locals[idx as int])
            } else {
                None
            }),
    {
        self.locals.get_at(idx)
    }

    pub fn get_name(&self) -> (name: &str)
        ensures
            name@ == self@.name,
    {
        self.name.as_str()
    }
}

} // verus!
