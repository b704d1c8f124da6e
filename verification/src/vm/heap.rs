//! The heap of the stack machine: numbered cells that hold functions or
//! array sizes. Taking a cell out removes it, shifting the later cells down.
use vstd::prelude::*;

use crate::compiler::chunk::{function_model, CompiledFunction, FunctionModel};

verus! {

#[derive(Debug)]
pub enum Unit {
    /// An array, by its size in bytes.
    Array(usize),
    Function(CompiledFunction),
}

pub enum UnitModel {
    Array(usize),
    Function(FunctionModel),
}

pub open spec fn unit_model(u: Unit) -> UnitModel {
    match u {
        Unit::Array(n) => UnitModel::Array(n),
        Unit::Function(f) => UnitModel::Function(function_model(f)),
    }
}

pub open spec fn cell_model(c: Option<Unit>) -> Option<UnitModel> {
    match c {
        Some(u) => Some(unit_model(u)),
        None => None,
    }
}

impl Unit {
    pub fn as_function(self) -> (r: CompiledFunction)
        requires
            self is Function,
        ensures
            function_model(r) == function_model(self->Function_0),
    {
        match self {
            Unit::Function(f) => f,
            _ => {
                assert(false);
                CompiledFunction {
                    name: String::new(),
                    arity: 0,
                    chunk: crate::compiler::chunk::Chunk::new(),
                }
            },
        }
    }
}

pub struct Heap {
    allocated: Vec<Option<Unit>>,
}

impl View for Heap {
    type V = Seq<Option<UnitModel>>;

    closed spec fn view(&self) -> Seq<Option<UnitModel>> {
        self.allocated@.map_values(|c: Option<Unit>| cell_model(c))
    }
}

impl Heap {
    pub fn new() -> (r: Self)
        ensures
            r@ == Seq::<Option<UnitModel>>::empty(),
    {
        let r = Heap { allocated: Vec::new() };
        assert(r@ =~= Seq::<Option<UnitModel>>::empty());
        r
    }

    pub fn len(&self) -> (r: usize)
        ensures
            r == self@.len(),
    {
        self.allocated.len()
    }

    /// Stores `unit` in a new cell at the end and returns the cell's number.
    pub fn allocate(&mut self, unit: Unit) -> (r: usize)
        requires
            old(self)@.len() < usize::MAX,
        ensures
            final(self)@ == old(self)@.push(Some(unit_model(unit))),
            r == old(self)@.len(),
    {
        let ghost m = unit_model(unit);
        self.allocated.push(Some(unit));
        assert(self@ =~= old(self)@.push(Some(m)));
        self.allocated.len() - 1
    }

    /// Removes cell `ptr` and returns what it held.
    pub fn move_val(&mut self, ptr: usize) -> (r: Option<Unit>)
        requires
            ptr < old(self)@.len(),
        ensures
            cell_model(r) == old(self)@[ptr as int],
            final(self)@ == old(self)@.remove(ptr as int),
    {
        let r = self.allocated.remove(ptr);
        assert(self@ =~= old(self)@.remove(ptr as int));
        r
    }
}

} // verus!
