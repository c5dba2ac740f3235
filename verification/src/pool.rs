//! The constant pool: the literals of a program, found by index.

use vstd::prelude::*;
use crate::object::Object;

verus! {

/// An append-only sequence of values. An index, once handed out, always names the
/// same value.
#[derive(Debug, PartialEq, Eq)]
pub struct Pool {
    pub entries: Vec<Object>,
}

impl View for Pool {
    type V = Seq<Object>;

    open spec fn view(&self) -> Seq<Object> {
        self.entries@
    }
}

impl Pool {
    pub fn make() -> (pool: Self)
        ensures
            pool@ == Seq::<Object>::empty(),
    {
        Self { entries: Vec::new() }
    }

    /// Appends a value and returns its index.
    pub fn append(&mut self, o: Object) -> (index: usize)
        ensures
            index == old(self)@.len(),
            final(self)@ == old(self)@.push(o),
    {
        let index = self.entries.len();
        self.entries.push(o);
        index
    }

    pub fn get_by_index(&self, i: usize) -> (entry: Option<&Object>)
        ensures
            entry == (if i < self@.len() {
                Some(&self@[i as int])
            } else {
                None
            }),
    {
        if self.entries.len() <= i {
            return None;
        }
        Some(&self.entries[i])
    }
}

impl Clone for Pool {
    fn clone(&self) -> (res: Self)
        ensures
            res@ == self@,
    {
        let mut entries: Vec<Object> = Vec::new();
        let mut i: usize = 0;
        while i < self.entries.len()
            invariant
                i <= self.entries@.len(),
                entries@ == self.entries@.subrange(0, i as int),
            decreases self.entries@.len() - i,
        {
            entries.push(self.entries[i].clone());
            i += 1;
            assert(entries@ =~= self.entries@.subrange(0, i as int));
        }
        assert(entries@ =~= self.entries@);
        Self { entries }
    }
}

} // verus!
