//! The five operations, each on the storage slots it touches.
//!
//! Whoever calls an operation has resolved the slots beforehand: a slot is
//! `None` where nothing is stored at its address, and `Some` where a value
//! is. The operation reads and writes the slots and nothing else. Where it
//! returns an error, the slots are as they were.

use vstd::prelude::*;
use crate::account::{slot_view, Todo, TodoCounter, TodoView};
use crate::error::TodoError;
use crate::title::{title_verdict, validate_title};

verus! {

/// The slots of `initialize`.
pub struct InitializeCounter {
    /// The slot at the owner's counter address.
    pub counter: Option<TodoCounter>,
    /// The salt that the derivation of that address gave.
    pub bump: u8,
}

/// The slots of `create_todo`.
pub struct CreateTodo {
    /// The slot at the owner's counter address.
    pub counter: Option<TodoCounter>,
    /// The slot at the address of the record that the counter points at.
    pub todo: Option<Todo>,
}

/// The slot of `mark_complete`.
pub struct MarkComplete {
    pub todo: Option<Todo>,
}

/// The slot of `update_todo`.
pub struct UpdateTodo {
    pub todo: Option<Todo>,
}

/// The slot of `delete_todo`.
pub struct DeleteTodo {
    pub todo: Option<Todo>,
}

/// What `create_todo` answers: a missing counter is seen before the title is
/// looked at.
pub open spec fn create_verdict(has_counter: bool, title: Seq<char>) -> Result<(), TodoError> {
    if !has_counter {
        Err(TodoError::CounterMissing)
    } else {
        title_verdict(title)
    }
}

/// What `update_todo` answers: a missing record is seen before the title is
/// looked at.
pub open spec fn update_verdict(has_record: bool, title: Seq<char>) -> Result<(), TodoError> {
    if !has_record {
        Err(TodoError::RecordNotFound)
    } else {
        title_verdict(title)
    }
}

/// What `mark_complete` and `delete_todo` answer.
pub open spec fn lookup_verdict(has_record: bool) -> Result<(), TodoError> {
    if has_record {
        Ok(())
    } else {
        Err(TodoError::RecordNotFound)
    }
}

/// Gives the owner a counter that starts at zero. Fails with
/// `AlreadyInitialized` where the owner has one.
pub fn initialize(ctx: &mut InitializeCounter) -> (r: Result<(), TodoError>)
    ensures
        r is Ok <==> old(ctx).counter is None,
        r is Err ==> r == Err::<(), TodoError>(TodoError::AlreadyInitialized),
        r is Err ==> *final(ctx) == *old(ctx),
        r is Ok ==> final(ctx).bump == old(ctx).bump && final(ctx).counter == Some(
            TodoCounter { next_index: 0, bump: old(ctx).bump },
        ),
{
    if ctx.counter.is_some() {
        return Err(TodoError::AlreadyInitialized);
    }
    ctx.counter = Some(TodoCounter { next_index: 0, bump: ctx.bump });
    Ok(())
}

/// Stores a new, uncompleted record under the counter's sequence number and
/// moves the counter on by one.
pub fn create_todo(ctx: &mut CreateTodo, title: String) -> (r: Result<(), TodoError>)
    requires
        old(ctx).todo is None,
        old(ctx).counter matches Some(c) ==> c.next_index < u64::MAX,
    ensures
        r == create_verdict(old(ctx).counter is Some, title@),
        r is Err ==> *final(ctx) == *old(ctx),
        r is Ok ==> final(ctx).counter == Some(
            TodoCounter {
                next_index: (old(ctx).counter->Some_0.next_index + 1) as u64,
                bump: old(ctx).counter->Some_0.bump,
            },
        ) && slot_view(final(ctx).todo) == Some(TodoView { title: title@, is_completed: false }),
{
    let counter = match ctx.counter {
        Some(c) => c,
        None => {
            return Err(TodoError::CounterMissing);
        },
    };
    match validate_title(&title) {
        Ok(()) => {},
        Err(e) => {
            return Err(e);
        },
    }
    ctx.todo = Some(Todo { title, is_completed: false });
    ctx.counter = Some(TodoCounter { next_index: counter.next_index + 1, bump: counter.bump });
    Ok(())
}

/// Marks the record as done. A record that is done stays done.
pub fn mark_complete(ctx: &mut MarkComplete, _todo_index: u64) -> (r: Result<(), TodoError>)
    ensures
        r == lookup_verdict(old(ctx).todo is Some),
        r is Err ==> *final(ctx) == *old(ctx),
        r is Ok ==> slot_view(final(ctx).todo) == Some(
            TodoView { title: old(ctx).todo->Some_0.title@, is_completed: true },
        ),
{
    match &mut ctx.todo {
        Some(todo) => {
            todo.is_completed = true;
            Ok(())
        },
        None => Err(TodoError::RecordNotFound),
    }
}

/// Gives the record a new title and leaves its status alone.
pub fn update_todo(ctx: &mut UpdateTodo, _todo_index: u64, new_title: String) -> (r: Result<
    (),
    TodoError,
>)
    ensures
        r == update_verdict(old(ctx).todo is Some, new_title@),
        r is Err ==> *final(ctx) == *old(ctx),
        r is Ok ==> slot_view(final(ctx).todo) == Some(
            TodoView {
                title: new_title@,
                is_completed: old(ctx).todo->Some_0.is_completed,
            },
        ),
{
    match &mut ctx.todo {
        Some(todo) => {
            match validate_title(&new_title) {
                Ok(()) => {
                    todo.title = new_title;
                    Ok(())
                },
                Err(e) => Err(e),
            }
        },
        None => Err(TodoError::RecordNotFound),
    }
}

/// Removes the record, done or not, and leaves its slot empty.
pub fn delete_todo(ctx: &mut DeleteTodo, _todo_index: u64) -> (r: Result<(), TodoError>)
    ensures
        r == lookup_verdict(old(ctx).todo is Some),
        r is Err ==> *final(ctx) == *old(ctx),
        r is Ok ==> final(ctx).todo is None,
{
    if ctx.todo.is_none() {
        return Err(TodoError::RecordNotFound);
    }
    ctx.todo = None;
    Ok(())
}

} // verus!
