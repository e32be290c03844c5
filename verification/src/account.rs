//! The two kinds of stored value: an owner's counter and a record.

use vstd::prelude::*;
use crate::title::is_valid_title;

verus! {

/// The one counter of an owner: the sequence number that the owner's next
/// record will get.
#[derive(Clone, Copy, Debug, PartialEq, Eq, Structural)]
pub struct TodoCounter {
    /// The next sequence number to hand out. Every number below it has been
    /// handed out, and none of them is handed out again.
    pub next_index: u64,
    /// The salt with which the counter's own address is derived.
    pub bump: u8,
}

/// A record: a title and whether the task is done.
#[derive(Clone, Debug, PartialEq, Eq)]
pub struct Todo {
    pub title: String,
    pub is_completed: bool,
}

/// What a record holds, as plain mathematical values.
pub struct TodoView {
    pub title: Seq<char>,
    pub is_completed: bool,
}

impl View for Todo {
    type V = TodoView;

    open spec fn view(&self) -> TodoView {
        TodoView { title: self.title@, is_completed: self.is_completed }
    }
}

impl TodoView {
    /// The record's title is one that validation accepts.
    pub open spec fn is_valid(self) -> bool {
        is_valid_title(self.title)
    }
}

/// A slot that may hold a record, seen through the record's view.
pub open spec fn slot_view(slot: Option<Todo>) -> Option<TodoView> {
    match slot {
        Some(t) => Some(t@),
        None => None,
    }
}

} // verus!
