//! An in-memory todo store: add, list, and toggle over one ordered sequence
//! of items, with verified contracts for each operation and proved laws for
//! identifier uniqueness, insertion-order preservation, and toggle behavior.
//! The HTTP layer that drives the store lives outside the library and holds
//! a lock around each call.

pub mod todo_service;

use vstd::prelude::*;

verus! {

/// A create request: the title of the todo to be added.
pub struct NewTodo {
    pub title: String,
}

} // verus!
