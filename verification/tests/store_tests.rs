use todo_pda::account::{Todo, TodoCounter};
use todo_pda::error::TodoError;
use todo_pda::store::Store;

const A: [u8; 32] = [1u8; 32];
const B: [u8; 32] = [2u8; 32];

fn todo(title: &str, is_completed: bool) -> Todo {
    Todo { title: title.to_string(), is_completed }
}

fn counter(next_index: u64, bump: u8) -> Option<TodoCounter> {
    Some(TodoCounter { next_index, bump })
}

#[test]
fn a_new_store_is_empty() {
    let s = Store::new();
    assert_eq!(s.counter(&A), None);
    assert_eq!(s.todo(&A, 0), None);
}

#[test]
fn end_to_end_scenario() {
    let mut s = Store::new();
    assert_eq!(s.initialize(&A, 255), Ok(()));
    assert_eq!(s.counter(&A), counter(0, 255));

    assert_eq!(s.create_todo(&A, "Buy milk".to_string()), Ok(0));
    assert_eq!(s.todo(&A, 0), Some(&todo("Buy milk", false)));
    assert_eq!(s.counter(&A), counter(1, 255));

    assert_eq!(s.mark_complete(&A, 0), Ok(()));
    assert_eq!(s.todo(&A, 0), Some(&todo("Buy milk", true)));

    assert_eq!(s.update_todo(&A, 0, "Buy oat milk".to_string()), Ok(()));
    assert_eq!(s.todo(&A, 0), Some(&todo("Buy oat milk", true)));

    assert_eq!(s.delete_todo(&A, 0), Ok(()));
    assert_eq!(s.todo(&A, 0), None);

    assert_eq!(s.create_todo(&A, "Walk dog".to_string()), Ok(1));
    assert_eq!(s.todo(&A, 1), Some(&todo("Walk dog", false)));
    assert_eq!(s.todo(&A, 0), None);
    assert_eq!(s.counter(&A), counter(2, 255));
}

#[test]
fn sequence_numbers_count_up_from_zero() {
    let mut s = Store::new();
    assert_eq!(s.initialize(&A, 0), Ok(()));
    for n in 0..50u64 {
        assert_eq!(s.counter(&A), counter(n, 0));
        assert_eq!(s.create_todo(&A, format!("task {}", n)), Ok(n));
        if n % 3 == 0 {
            assert_eq!(s.delete_todo(&A, n), Ok(()));
        }
        if n % 3 == 1 {
            assert_eq!(s.mark_complete(&A, n), Ok(()));
        }
    }
    assert_eq!(s.counter(&A), counter(50, 0));
    assert_eq!(s.todo(&A, 49), Some(&todo("task 49", true)));
    assert_eq!(s.todo(&A, 48), None);
    assert_eq!(s.todo(&A, 47), Some(&todo("task 47", false)));
    assert_eq!(s.todo(&A, 50), None);
}

#[test]
fn a_failed_create_hands_out_no_number() {
    let mut s = Store::new();
    assert_eq!(s.initialize(&A, 4), Ok(()));
    assert_eq!(s.create_todo(&A, "".to_string()), Err(TodoError::TitleEmpty));
    assert_eq!(s.create_todo(&A, " \t".to_string()), Err(TodoError::TitleWhitespaceOnly));
    assert_eq!(s.create_todo(&A, "ab".to_string()), Err(TodoError::TitleTooShort));
    assert_eq!(s.create_todo(&A, "x".repeat(201)), Err(TodoError::TitleTooLong));
    assert_eq!(s.counter(&A), counter(0, 4));
    assert_eq!(s.todo(&A, 0), None);
    assert_eq!(s.create_todo(&A, "abc".to_string()), Ok(0));
}

#[test]
fn initialize_twice_fails_and_keeps_the_counter() {
    let mut s = Store::new();
    assert_eq!(s.initialize(&A, 10), Ok(()));
    assert_eq!(s.create_todo(&A, "one".to_string()), Ok(0));
    assert_eq!(s.initialize(&A, 11), Err(TodoError::AlreadyInitialized));
    assert_eq!(s.counter(&A), counter(1, 10));
    assert_eq!(s.todo(&A, 0), Some(&todo("one", false)));
}

#[test]
fn create_before_initialize_fails() {
    let mut s = Store::new();
    assert_eq!(s.create_todo(&A, "Buy milk".to_string()), Err(TodoError::CounterMissing));
    assert_eq!(s.create_todo(&A, "".to_string()), Err(TodoError::CounterMissing));
    assert_eq!(s.counter(&A), None);
    assert_eq!(s.initialize(&B, 1), Ok(()));
    assert_eq!(s.create_todo(&A, "Buy milk".to_string()), Err(TodoError::CounterMissing));
}

#[test]
fn completion_is_idempotent() {
    let mut s = Store::new();
    assert_eq!(s.initialize(&A, 1), Ok(()));
    assert_eq!(s.create_todo(&A, "Buy milk".to_string()), Ok(0));
    assert_eq!(s.mark_complete(&A, 0), Ok(()));
    assert_eq!(s.todo(&A, 0), Some(&todo("Buy milk", true)));
    assert_eq!(s.mark_complete(&A, 0), Ok(()));
    assert_eq!(s.todo(&A, 0), Some(&todo("Buy milk", true)));
    assert_eq!(s.counter(&A), counter(1, 1));
}

#[test]
fn a_deleted_number_is_never_used_again() {
    let mut s = Store::new();
    assert_eq!(s.initialize(&A, 1), Ok(()));
    assert_eq!(s.create_todo(&A, "zero".to_string()), Ok(0));
    assert_eq!(s.create_todo(&A, "one".to_string()), Ok(1));
    assert_eq!(s.create_todo(&A, "two".to_string()), Ok(2));
    assert_eq!(s.delete_todo(&A, 2), Ok(()));
    assert_eq!(s.create_todo(&A, "three".to_string()), Ok(3));
    assert_eq!(s.delete_todo(&A, 0), Ok(()));
    assert_eq!(s.create_todo(&A, "four".to_string()), Ok(4));

    for n in [0u64, 2] {
        assert_eq!(s.todo(&A, n), None);
        assert_eq!(s.mark_complete(&A, n), Err(TodoError::RecordNotFound));
        assert_eq!(s.update_todo(&A, n, "again".to_string()), Err(TodoError::RecordNotFound));
        assert_eq!(s.update_todo(&A, n, "".to_string()), Err(TodoError::RecordNotFound));
        assert_eq!(s.delete_todo(&A, n), Err(TodoError::RecordNotFound));
    }
    assert_eq!(s.todo(&A, 1), Some(&todo("one", false)));
    assert_eq!(s.todo(&A, 3), Some(&todo("three", false)));
    assert_eq!(s.todo(&A, 4), Some(&todo("four", false)));
    assert_eq!(s.counter(&A), counter(5, 1));
}

#[test]
fn numbers_not_yet_handed_out_are_not_found() {
    let mut s = Store::new();
    assert_eq!(s.mark_complete(&A, 0), Err(TodoError::RecordNotFound));
    assert_eq!(s.initialize(&A, 1), Ok(()));
    assert_eq!(s.mark_complete(&A, 0), Err(TodoError::RecordNotFound));
    assert_eq!(s.update_todo(&A, 0, "title".to_string()), Err(TodoError::RecordNotFound));
    assert_eq!(s.delete_todo(&A, u64::MAX), Err(TodoError::RecordNotFound));
    assert_eq!(s.create_todo(&A, "zero".to_string()), Ok(0));
    assert_eq!(s.delete_todo(&A, 1), Err(TodoError::RecordNotFound));
    assert_eq!(s.todo(&A, 0), Some(&todo("zero", false)));
}

#[test]
fn update_with_a_bad_title_keeps_the_record() {
    let mut s = Store::new();
    assert_eq!(s.initialize(&A, 1), Ok(()));
    assert_eq!(s.create_todo(&A, "Buy milk".to_string()), Ok(0));
    assert_eq!(s.update_todo(&A, 0, "".to_string()), Err(TodoError::TitleEmpty));
    assert_eq!(s.update_todo(&A, 0, "  ".to_string()), Err(TodoError::TitleWhitespaceOnly));
    assert_eq!(s.update_todo(&A, 0, "ab".to_string()), Err(TodoError::TitleTooShort));
    assert_eq!(s.update_todo(&A, 0, "b".repeat(201)), Err(TodoError::TitleTooLong));
    assert_eq!(s.todo(&A, 0), Some(&todo("Buy milk", false)));
}

#[test]
fn owners_do_not_touch_each_other() {
    let mut s = Store::new();
    assert_eq!(s.initialize(&A, 7), Ok(()));
    assert_eq!(s.initialize(&B, 8), Ok(()));
    assert_eq!(s.create_todo(&A, "a zero".to_string()), Ok(0));
    assert_eq!(s.create_todo(&B, "b zero".to_string()), Ok(0));
    assert_eq!(s.create_todo(&A, "a one".to_string()), Ok(1));
    assert_eq!(s.create_todo(&A, "a two".to_string()), Ok(2));
    assert_eq!(s.counter(&A), counter(3, 7));
    assert_eq!(s.counter(&B), counter(1, 8));
    assert_eq!(s.todo(&B, 0), Some(&todo("b zero", false)));
    assert_eq!(s.todo(&B, 1), None);

    assert_eq!(s.mark_complete(&A, 0), Ok(()));
    assert_eq!(s.delete_todo(&A, 1), Ok(()));
    assert_eq!(s.update_todo(&A, 2, "changed".to_string()), Ok(()));
    assert_eq!(s.todo(&B, 0), Some(&todo("b zero", false)));
    assert_eq!(s.counter(&B), counter(1, 8));

    assert_eq!(s.mark_complete(&B, 1), Err(TodoError::RecordNotFound));
    assert_eq!(s.delete_todo(&B, 0), Ok(()));
    assert_eq!(s.todo(&A, 0), Some(&todo("a zero", true)));
    assert_eq!(s.todo(&A, 2), Some(&todo("changed", false)));
    assert_eq!(s.counter(&A), counter(3, 7));
}

#[test]
fn owners_that_differ_in_one_byte_are_different_owners() {
    let mut c = A;
    c[31] = 0;
    let mut s = Store::new();
    assert_eq!(s.initialize(&A, 1), Ok(()));
    assert_eq!(s.counter(&c), None);
    assert_eq!(s.initialize(&c, 2), Ok(()));
    assert_eq!(s.create_todo(&c, "mine".to_string()), Ok(0));
    assert_eq!(s.todo(&A, 0), None);
    assert_eq!(s.counter(&A), counter(0, 1));
    assert_eq!(s.counter(&c), counter(1, 2));
}
