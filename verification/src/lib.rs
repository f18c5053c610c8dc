//! A typed key-value scratchpad.
//!
//! The scratchpad stores named, typed, optionally mutable values. A name can
//! be declared more than once: each declaration pushes a fresh cell onto the
//! name's shadow chain, lookups resolve to the newest cell, and the older
//! cells stay allocated but unreachable by name. Mutation goes through an
//! explicit permission check: a cell declared immutable refuses every write,
//! and a mutable cell only accepts a value of the kind it already holds.

use vstd::prelude::*;

pub mod cell;
pub mod env;
pub mod value;

verus! {

/// Add two integers.
pub fn my_first_rust_function(x: i32, y: i32) -> (r: i32)
    requires
        i32::MIN <= x as int + y as int <= i32::MAX,
    ensures
        r == x as int + y as int,
{
    x + y
}

} // verus!
