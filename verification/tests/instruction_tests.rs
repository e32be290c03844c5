use todo_pda::account::{Todo, TodoCounter};
use todo_pda::error::TodoError;
use todo_pda::instruction::{
    create_todo, delete_todo, initialize, mark_complete, update_todo, CreateTodo, DeleteTodo,
    InitializeCounter, MarkComplete, UpdateTodo,
};

fn todo(title: &str, is_completed: bool) -> Todo {
    Todo { title: title.to_string(), is_completed }
}

#[test]
fn initialize_fills_an_empty_slot() {
    let mut ctx = InitializeCounter { counter: None, bump: 254 };
    assert_eq!(initialize(&mut ctx), Ok(()));
    assert_eq!(ctx.counter, Some(TodoCounter { next_index: 0, bump: 254 }));
    assert_eq!(ctx.bump, 254);
}

#[test]
fn initialize_refuses_an_occupied_slot() {
    let there = TodoCounter { next_index: 5, bump: 1 };
    let mut ctx = InitializeCounter { counter: Some(there), bump: 254 };
    assert_eq!(initialize(&mut ctx), Err(TodoError::AlreadyInitialized));
    assert_eq!(ctx.counter, Some(there));
}

#[test]
fn create_stores_the_record_and_moves_the_counter() {
    let mut ctx = CreateTodo { counter: Some(TodoCounter { next_index: 41, bump: 3 }), todo: None };
    assert_eq!(create_todo(&mut ctx, "Buy milk".to_string()), Ok(()));
    assert_eq!(ctx.counter, Some(TodoCounter { next_index: 42, bump: 3 }));
    assert_eq!(ctx.todo, Some(todo("Buy milk", false)));
}

#[test]
fn create_without_counter_fails_before_the_title_is_read() {
    let mut ctx = CreateTodo { counter: None, todo: None };
    assert_eq!(create_todo(&mut ctx, "".to_string()), Err(TodoError::CounterMissing));
    assert_eq!(ctx.counter, None);
    assert_eq!(ctx.todo, None);
    assert_eq!(create_todo(&mut ctx, "Buy milk".to_string()), Err(TodoError::CounterMissing));
}

#[test]
fn create_with_a_bad_title_changes_nothing() {
    let counter = TodoCounter { next_index: 2, bump: 9 };
    let cases = [
        ("", TodoError::TitleEmpty),
        ("  ", TodoError::TitleWhitespaceOnly),
        ("ab", TodoError::TitleTooShort),
    ];
    for (title, error) in cases {
        let mut ctx = CreateTodo { counter: Some(counter), todo: None };
        assert_eq!(create_todo(&mut ctx, title.to_string()), Err(error));
        assert_eq!(ctx.counter, Some(counter));
        assert_eq!(ctx.todo, None);
    }
    let mut ctx = CreateTodo { counter: Some(counter), todo: None };
    assert_eq!(create_todo(&mut ctx, "y".repeat(201)), Err(TodoError::TitleTooLong));
    assert_eq!(ctx.counter, Some(counter));
    assert_eq!(ctx.todo, None);
}

#[test]
fn create_just_below_the_last_number() {
    let mut ctx =
        CreateTodo { counter: Some(TodoCounter { next_index: u64::MAX - 1, bump: 0 }), todo: None };
    assert_eq!(create_todo(&mut ctx, "last".to_string()), Ok(()));
    assert_eq!(ctx.counter, Some(TodoCounter { next_index: u64::MAX, bump: 0 }));
}

#[test]
fn mark_complete_sets_the_flag_and_keeps_the_title() {
    let mut ctx = MarkComplete { todo: Some(todo("Buy milk", false)) };
    assert_eq!(mark_complete(&mut ctx, 0), Ok(()));
    assert_eq!(ctx.todo, Some(todo("Buy milk", true)));
    assert_eq!(mark_complete(&mut ctx, 0), Ok(()));
    assert_eq!(ctx.todo, Some(todo("Buy milk", true)));
}

#[test]
fn mark_complete_does_not_check_the_title() {
    let mut ctx = MarkComplete { todo: Some(todo("", false)) };
    assert_eq!(mark_complete(&mut ctx, 7), Ok(()));
    assert_eq!(ctx.todo, Some(todo("", true)));
}

#[test]
fn mark_complete_of_nothing_fails() {
    let mut ctx = MarkComplete { todo: None };
    assert_eq!(mark_complete(&mut ctx, 0), Err(TodoError::RecordNotFound));
    assert_eq!(ctx.todo, None);
}

#[test]
fn update_replaces_the_title_and_keeps_the_flag() {
    let mut ctx = UpdateTodo { todo: Some(todo("Buy milk", true)) };
    assert_eq!(update_todo(&mut ctx, 0, "Buy oat milk".to_string()), Ok(()));
    assert_eq!(ctx.todo, Some(todo("Buy oat milk", true)));
    let mut open = UpdateTodo { todo: Some(todo("Buy milk", false)) };
    assert_eq!(update_todo(&mut open, 0, "abc".to_string()), Ok(()));
    assert_eq!(open.todo, Some(todo("abc", false)));
}

#[test]
fn update_with_a_bad_title_changes_nothing() {
    let mut ctx = UpdateTodo { todo: Some(todo("Buy milk", true)) };
    assert_eq!(update_todo(&mut ctx, 0, "".to_string()), Err(TodoError::TitleEmpty));
    assert_eq!(update_todo(&mut ctx, 0, "\n".to_string()), Err(TodoError::TitleWhitespaceOnly));
    assert_eq!(update_todo(&mut ctx, 0, "no".to_string()), Err(TodoError::TitleTooShort));
    assert_eq!(update_todo(&mut ctx, 0, "z".repeat(201)), Err(TodoError::TitleTooLong));
    assert_eq!(ctx.todo, Some(todo("Buy milk", true)));
}

#[test]
fn update_of_nothing_fails_before_the_title_is_read() {
    let mut ctx = UpdateTodo { todo: None };
    assert_eq!(update_todo(&mut ctx, 0, "".to_string()), Err(TodoError::RecordNotFound));
    assert_eq!(update_todo(&mut ctx, 0, "fine".to_string()), Err(TodoError::RecordNotFound));
    assert_eq!(ctx.todo, None);
}

#[test]
fn delete_empties_the_slot_whatever_the_status() {
    let mut done = DeleteTodo { todo: Some(todo("Buy milk", true)) };
    assert_eq!(delete_todo(&mut done, 0), Ok(()));
    assert_eq!(done.todo, None);
    let mut open = DeleteTodo { todo: Some(todo("Walk dog", false)) };
    assert_eq!(delete_todo(&mut open, 1), Ok(()));
    assert_eq!(open.todo, None);
}

#[test]
fn delete_of_nothing_fails() {
    let mut ctx = DeleteTodo { todo: None };
    assert_eq!(delete_todo(&mut ctx, 0), Err(TodoError::RecordNotFound));
    assert_eq!(ctx.todo, None);
}
