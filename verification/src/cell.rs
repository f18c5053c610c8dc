//! A single named, typed, optionally mutable storage slot.

use vstd::prelude::*;

use crate::value::Value;

verus! {

/// Why a write to a cell was refused.
#[derive(Debug, Clone, Copy, PartialEq, Eq, Structural)]
pub enum CellError {
    /// The cell was declared immutable.
    ImmutableAssignment,
    /// The new value's kind differs from the kind the cell holds.
    TypeMismatch,
}

/// A named value with a mutability flag. The kind of the stored value never
/// changes over the lifetime of the cell: `set` only accepts a value of the
/// kind the cell already holds, and only if the cell is mutable.
pub struct ValueCell {
    pub name: String,
    pub value: Value,
    pub mutable: bool,
}

impl ValueCell {
    /// Construct a cell holding `value` under `name`.
    pub fn create(name: String, value: Value, mutable: bool) -> (c: ValueCell)
        ensures
            c.name == name,
            c.value == value,
            c.mutable == mutable,
    {
        ValueCell { name, value, mutable }
    }

    /// Read the stored value. Reading has no side effect.
    pub fn get(&self) -> (v: &Value)
        ensures
            *v == self.value,
    {
        &self.value
    }

    /// Replace the stored value.
    ///
    /// An immutable cell refuses every write with `ImmutableAssignment`; a
    /// mutable cell accepts exactly the values of the kind it already holds,
    /// and refuses the rest with `TypeMismatch`. On failure the cell is
    /// unchanged.
    pub fn set(&mut self, v: Value) -> (r: Result<(), CellError>)
        ensures
            !old(self).mutable ==> r == Err::<(), CellError>(CellError::ImmutableAssignment),
            old(self).mutable && v.kind() == old(self).value.kind() ==> r == Ok::<(), CellError>(
                (),
            ),
            old(self).mutable && v.kind() != old(self).value.kind() ==> r == Err::<(), CellError>(
                CellError::TypeMismatch,
            ),
            r is Ok ==> final(self).value == v,
            r is Err ==> *final(self) == *old(self),
            final(self).name == old(self).name,
            final(self).mutable == old(self).mutable,
            final(self).value.kind() == old(self).value.kind(),
    {
        if !self.mutable {
            return Err(CellError::ImmutableAssignment);
        }
        if self.value.kind_of() != v.kind_of() {
            return Err(CellError::TypeMismatch);
        }
        self.value = v;
        Ok(())
    }
}

} // verus!
