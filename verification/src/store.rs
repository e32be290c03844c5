//! The store: every owner's counter and records, and the five operations
//! on them.
//!
//! A counter is found by its owner and a record by its owner and sequence
//! number, which are the very values that its address is derived from. An
//! operation looks up the slots it needs, runs on them, and puts back what
//! it left in them.

use vstd::prelude::*;
use crate::account::{slot_view, Todo, TodoCounter, TodoView};
use crate::error::TodoError;
use crate::instruction::{
    create_verdict,
    lookup_verdict,
    update_verdict,
    CreateTodo,
    DeleteTodo,
    InitializeCounter,
    MarkComplete,
    UpdateTodo,
};
use crate::title::is_valid_title;

verus! {

/// What one owner has in the store: the counter, and one slot for each
/// sequence number handed out so far. The slot of a deleted record stays,
/// empty, so that its number is never given to another record.
struct Ledger {
    owner: [u8; 32],
    counter: TodoCounter,
    todos: Vec<Option<Todo>>,
}

impl Ledger {
    spec fn wf(&self) -> bool {
        &&& self.todos@.len() == self.counter.next_index
        &&& forall|n: int|
            0 <= n < self.todos@.len() ==> (#[trigger] self.todos@[n] matches Some(t)
                ==> t@.is_valid())
    }

    spec fn todo_at(&self, index: u64) -> Option<TodoView> {
        if index < self.todos@.len() {
            slot_view(self.todos@[index as int])
        } else {
            None
        }
    }
}

/// The counters and records of all owners.
pub struct Store {
    ledgers: Vec<Ledger>,
}

/// Two keys hold the same bytes.
fn same_key(a: &[u8; 32], b: &[u8; 32]) -> (r: bool)
    ensures
        r == (a@ == b@),
{
    let mut i: usize = 0;
    while i < 32
        invariant
            i <= 32,
            forall|k: int| 0 <= k < i ==> a@[k] == b@[k],
        decreases 32 - i,
    {
        if a[i] != b[i] {
            assert(a@[i as int] != b@[i as int]);
            return false;
        }
        i += 1;
    }
    assert(a@ =~= b@);
    true
}

impl Store {
    spec fn holds(&self, owner: Seq<u8>, i: int) -> bool {
        0 <= i < self.ledgers@.len() && self.ledgers@[i].owner@ == owner
    }

    spec fn has(&self, owner: Seq<u8>) -> bool {
        exists|i: int| self.holds(owner, i)
    }

    spec fn position(&self, owner: Seq<u8>) -> int {
        choose|i: int| self.holds(owner, i)
    }

    /// The store is well formed: no owner has two counters, an owner's
    /// records are numbered below the owner's counter, and every title is
    /// valid.
    pub closed spec fn wf(&self) -> bool {
        &&& forall|i: int, j: int|
            #![trigger self.ledgers@[i], self.ledgers@[j]]
            0 <= i < j < self.ledgers@.len() ==> self.ledgers@[i].owner@
                != self.ledgers@[j].owner@
        &&& forall|i: int| 0 <= i < self.ledgers@.len() ==> (#[trigger] self.ledgers@[i]).wf()
    }

    /// The owner's counter, if the owner has one.
    pub closed spec fn counter_of(&self, owner: Seq<u8>) -> Option<TodoCounter> {
        if self.has(owner) {
            Some(self.ledgers@[self.position(owner)].counter)
        } else {
            None
        }
    }

    /// The record that the owner holds under the sequence number, if there
    /// is one.
    pub closed spec fn todo_at(&self, owner: Seq<u8>, index: u64) -> Option<TodoView> {
        if self.has(owner) {
            self.ledgers@[self.position(owner)].todo_at(index)
        } else {
            None
        }
    }

    /// Both stores hold the same counters and the same records.
    pub open spec fn same_as(&self, other: &Store) -> bool {
        &&& forall|o: Seq<u8>| self.counter_of(o) == other.counter_of(o)
        &&& forall|o: Seq<u8>, n: u64| self.todo_at(o, n) == other.todo_at(o, n)
    }

    /// Both stores hold the same counter for every owner but `owner`.
    pub open spec fn same_counters_but(&self, other: &Store, owner: Seq<u8>) -> bool {
        forall|o: Seq<u8>| o != owner ==> self.counter_of(o) == other.counter_of(o)
    }

    /// Both stores hold the same records, but under `owner` and `index`.
    pub open spec fn same_todos_but(&self, other: &Store, owner: Seq<u8>, index: u64) -> bool {
        forall|o: Seq<u8>, n: u64|
            !(o == owner && n == index) ==> self.todo_at(o, n) == other.todo_at(o, n)
    }

    proof fn lemma_position(&self, owner: Seq<u8>, i: int)
        requires
            self.wf(),
            self.holds(owner, i),
        ensures
            self.has(owner),
            self.position(owner) == i,
    {
        let p = self.position(owner);
        assert(self.holds(owner, p));
        if p != i {
            assert(self.ledgers@[p].owner@ == self.ledgers@[i].owner@);
        }
    }

    /// Two stores with the same owners in the same places find each owner in
    /// the same place.
    proof fn lemma_same_owners(&self, before: &Store, o: Seq<u8>)
        requires
            self.wf(),
            before.wf(),
            self.ledgers@.len() == before.ledgers@.len(),
            forall|i: int|
                0 <= i < self.ledgers@.len() ==> (#[trigger] self.ledgers@[i]).owner@
                    == before.ledgers@[i].owner@,
        ensures
            self.has(o) == before.has(o),
            self.has(o) ==> self.position(o) == before.position(o) && self.holds(
                o,
                self.position(o),
            ),
    {
        if self.has(o) {
            let p = self.position(o);
            assert(self.holds(o, p));
            assert(before.holds(o, p));
            before.lemma_position(o, p);
        } else if before.has(o) {
            let p = before.position(o);
            assert(before.holds(o, p));
            assert(self.ledgers@[p].owner@ == before.ledgers@[p].owner@);
            assert(self.holds(o, p));
        }
    }

    /// A store that got one owner more finds every other owner where it was.
    proof fn lemma_one_more(&self, before: &Store, o: Seq<u8>)
        requires
            self.wf(),
            before.wf(),
            self.ledgers@.len() == before.ledgers@.len() + 1,
            forall|i: int|
                0 <= i < before.ledgers@.len() ==> (#[trigger] self.ledgers@[i])
                    == before.ledgers@[i],
            o != self.ledgers@[before.ledgers@.len() as int].owner@,
        ensures
            self.has(o) == before.has(o),
            self.has(o) ==> self.position(o) == before.position(o) && self.ledgers@[self.position(
                o,
            )] == before.ledgers@[before.position(o)],
    {
        if self.has(o) {
            let p = self.position(o);
            assert(self.holds(o, p));
            assert(self.ledgers@[p] == before.ledgers@[p]);
            assert(before.holds(o, p));
            before.lemma_position(o, p);
        } else if before.has(o) {
            let p = before.position(o);
            assert(before.holds(o, p));
            assert(self.ledgers@[p] == before.ledgers@[p]);
            assert(self.holds(o, p));
        }
    }

    /// In a well-formed store a record's sequence number is below its
    /// owner's counter, and its title is valid.
    pub proof fn lemma_record_below_counter(&self, owner: Seq<u8>, index: u64)
        requires
            self.wf(),
            self.todo_at(owner, index) is Some,
        ensures
            self.counter_of(owner) is Some,
            index < self.counter_of(owner)->Some_0.next_index,
            self.todo_at(owner, index)->Some_0.is_valid(),
    {
        let p = self.position(owner);
        assert(self.holds(owner, p));
        assert(self.ledgers@[p].wf());
        assert(self.ledgers@[p].todos@[index as int] is Some);
    }

    /// A store that holds nothing.
    pub fn new() -> (s: Store)
        ensures
            s.wf(),
            forall|o: Seq<u8>| s.counter_of(o) is None,
            forall|o: Seq<u8>, n: u64| s.todo_at(o, n) is None,
    {
        let s = Store { ledgers: Vec::new() };
        assert forall|o: Seq<u8>| !s.has(o) by {
            if s.has(o) {
                assert(s.holds(o, s.position(o)));
            }
        }
        s
    }

    /// The place of the owner's ledger.
    fn find(&self, owner: &[u8; 32]) -> (r: Option<usize>)
        requires
            self.wf(),
        ensures
            match r {
                Some(i) => self.holds(owner@, i as int) && self.has(owner@) && self.position(
                    owner@,
                ) == i,
                None => !self.has(owner@),
            },
    {
        let mut i: usize = 0;
        while i < self.ledgers.len()
            invariant
                self.wf(),
                i <= self.ledgers@.len(),
                forall|k: int| 0 <= k < i ==> !self.holds(owner@, k),
            decreases self.ledgers@.len() - i,
        {
            if same_key(&self.ledgers[i].owner, owner) {
                proof {
                    self.lemma_position(owner@, i as int);
                }
                return Some(i);
            }
            i += 1;
        }
        None
    }

    /// The places of the owner's ledger and, in it, of the record's slot,
    /// where the slot holds a record.
    fn locate(&self, owner: &[u8; 32], index: u64) -> (r: Option<(usize, usize)>)
        requires
            self.wf(),
        ensures
            r is Some <==> self.todo_at(owner@, index) is Some,
            r matches Some((i, n)) ==> self.holds(owner@, i as int) && self.position(owner@) == i
                && n == index && n < self.ledgers@[i as int].todos@.len()
                && self.ledgers@[i as int].todos@[n as int] is Some,
    {
        match self.find(owner) {
            Some(i) => {
                let ledger = &self.ledgers[i];
                let len: usize = ledger.todos.len();
                if index < len as u64 {
                    let n: usize = index as usize;
                    if ledger.todos[n].is_some() {
                        Some((i, n))
                    } else {
                        None
                    }
                } else {
                    None
                }
            },
            None => None,
        }
    }

    /// The owner's counter, if the owner has one.
    pub fn counter(&self, owner: &[u8; 32]) -> (r: Option<TodoCounter>)
        requires
            self.wf(),
        ensures
            r == self.counter_of(owner@),
    {
        match self.find(owner) {
            Some(i) => Some(self.ledgers[i].counter),
            None => None,
        }
    }

    /// The record that the owner holds under the sequence number, if there
    /// is one.
    pub fn todo(&self, owner: &[u8; 32], index: u64) -> (r: Option<&Todo>)
        requires
            self.wf(),
        ensures
            r is Some <==> self.todo_at(owner@, index) is Some,
            r matches Some(t) ==> self.todo_at(owner@, index) == Some(t@),
    {
        match self.locate(owner, index) {
            Some((i, n)) => self.ledgers[i].todos[n].as_ref(),
            None => None,
        }
    }
}

/// `after` is `before` with a fresh counter for `owner`, and nothing else
/// changed.
pub open spec fn initialized(before: &Store, after: &Store, owner: Seq<u8>, bump: u8) -> bool {
    &&& before.counter_of(owner) is None
    &&& after.counter_of(owner) == Some(TodoCounter { next_index: 0, bump })
    &&& after.same_counters_but(before, owner)
    &&& forall|o: Seq<u8>, n: u64| after.todo_at(o, n) == before.todo_at(o, n)
}

/// `after` is `before` with a new record of `owner` under `index`, which was
/// the owner's counter, and with that counter moved on by one; nothing else
/// changed.
pub open spec fn created(
    before: &Store,
    after: &Store,
    owner: Seq<u8>,
    title: Seq<char>,
    index: u64,
) -> bool {
    &&& is_valid_title(title)
    &&& before.counter_of(owner) is Some
    &&& index == before.counter_of(owner)->Some_0.next_index
    &&& index < u64::MAX
    &&& after.counter_of(owner) == Some(
        TodoCounter {
            next_index: (index + 1) as u64,
            bump: before.counter_of(owner)->Some_0.bump,
        },
    )
    &&& before.todo_at(owner, index) is None
    &&& after.todo_at(owner, index) == Some(TodoView { title, is_completed: false })
    &&& after.same_counters_but(before, owner)
    &&& after.same_todos_but(before, owner, index)
}

/// `after` is `before` with the record of `owner` under `index` marked as
/// done; nothing else changed.
pub open spec fn completed(before: &Store, after: &Store, owner: Seq<u8>, index: u64) -> bool {
    &&& before.todo_at(owner, index) is Some
    &&& after.todo_at(owner, index) == Some(
        TodoView { title: before.todo_at(owner, index)->Some_0.title, is_completed: true },
    )
    &&& forall|o: Seq<u8>| after.counter_of(o) == before.counter_of(o)
    &&& after.same_todos_but(before, owner, index)
}

/// `after` is `before` with a new title on the record of `owner` under
/// `index`; nothing else changed.
pub open spec fn updated(
    before: &Store,
    after: &Store,
    owner: Seq<u8>,
    index: u64,
    title: Seq<char>,
) -> bool {
    &&& is_valid_title(title)
    &&& before.todo_at(owner, index) is Some
    &&& after.todo_at(owner, index) == Some(
        TodoView { title, is_completed: before.todo_at(owner, index)->Some_0.is_completed },
    )
    &&& forall|o: Seq<u8>| after.counter_of(o) == before.counter_of(o)
    &&& after.same_todos_but(before, owner, index)
}

/// `after` is `before` without the record of `owner` under `index`; nothing
/// else changed.
pub open spec fn deleted(before: &Store, after: &Store, owner: Seq<u8>, index: u64) -> bool {
    &&& before.todo_at(owner, index) is Some
    &&& after.todo_at(owner, index) is None
    &&& forall|o: Seq<u8>| after.counter_of(o) == before.counter_of(o)
    &&& after.same_todos_but(before, owner, index)
}

impl Store {
    /// What holds after a change to the ledger at `i` that kept its owner.
    proof fn lemma_changed_in_place(&self, before: &Store, i: int)
        requires
            before.wf(),
            0 <= i < before.ledgers@.len(),
            self.ledgers@.len() == before.ledgers@.len(),
            self.ledgers@ == before.ledgers@.update(i, self.ledgers@[i]),
            self.ledgers@[i].owner == before.ledgers@[i].owner,
            self.ledgers@[i].wf(),
        ensures
            self.wf(),
            self.same_counters_but(before, before.ledgers@[i].owner@),
            forall|o: Seq<u8>, n: u64|
                o != before.ledgers@[i].owner@ ==> self.todo_at(o, n) == before.todo_at(o, n),
            self.has(before.ledgers@[i].owner@),
            before.has(before.ledgers@[i].owner@),
            self.position(before.ledgers@[i].owner@) == i,
            before.position(before.ledgers@[i].owner@) == i,
    {
        let owner = before.ledgers@[i].owner@;
        assert forall|k: int| 0 <= k < self.ledgers@.len() implies (
        #[trigger] self.ledgers@[k]).owner@ == before.ledgers@[k].owner@ by {}
        assert forall|k: int| 0 <= k < self.ledgers@.len() implies (
        #[trigger] self.ledgers@[k]).wf() by {
            if k != i {
                assert(before.ledgers@[k].wf());
            }
        }
        assert forall|a: int, b: int|
            #![trigger self.ledgers@[a], self.ledgers@[b]]
            0 <= a < b < self.ledgers@.len() implies self.ledgers@[a].owner@
            != self.ledgers@[b].owner@ by {
            assert(before.ledgers@[a].owner@ != before.ledgers@[b].owner@);
        }
        self.lemma_position(owner, i);
        before.lemma_position(owner, i);
        assert forall|o: Seq<u8>| o != owner implies self.counter_of(o) == before.counter_of(o) by {
            self.lemma_same_owners(before, o);
        }
        assert forall|o: Seq<u8>, n: u64| o != owner implies self.todo_at(o, n) == before.todo_at(
            o,
            n,
        ) by {
            self.lemma_same_owners(before, o);
        }
    }

    /// Gives the owner a counter that starts at zero. Fails with
    /// `AlreadyInitialized` where the owner has one.
    pub fn initialize(&mut self, owner: &[u8; 32], bump: u8) -> (r: Result<(), TodoError>)
        requires
            old(self).wf(),
        ensures
            final(self).wf(),
            r is Ok <==> old(self).counter_of(owner@) is None,
            r is Ok ==> initialized(old(self), final(self), owner@, bump),
            r is Err ==> r == Err::<(), TodoError>(TodoError::AlreadyInitialized),
            r is Err ==> final(self).same_as(old(self)),
    {
        let ghost before = *self;
        let found = self.find(owner);
        let mut ctx = InitializeCounter {
            counter: match found {
                Some(i) => Some(self.ledgers[i].counter),
                None => None,
            },
            bump,
        };
        match crate::instruction::initialize(&mut ctx) {
            Ok(()) => {
                let counter = ctx.counter.unwrap();
                self.ledgers.push(Ledger { owner: *owner, counter, todos: Vec::new() });
                proof {
                    let last = before.ledgers@.len() as int;
                    assert forall|a: int, b: int|
                        #![trigger self.ledgers@[a], self.ledgers@[b]]
                        0 <= a < b < self.ledgers@.len() implies self.ledgers@[a].owner@
                        != self.ledgers@[b].owner@ by {
                        if b == last {
                            assert(!before.holds(owner@, a));
                        } else {
                            assert(before.ledgers@[a].owner@ != before.ledgers@[b].owner@);
                        }
                    }
                    assert forall|k: int| 0 <= k < self.ledgers@.len() implies (
                    #[trigger] self.ledgers@[k]).wf() by {
                        if k != last {
                            assert(before.ledgers@[k].wf());
                        }
                    }
                    self.lemma_position(owner@, last);
                    assert forall|o: Seq<u8>| o != owner@ implies self.counter_of(o)
                        == before.counter_of(o) by {
                        self.lemma_one_more(&before, o);
                    }
                    assert forall|o: Seq<u8>, n: u64| self.todo_at(o, n) == before.todo_at(
                        o,
                        n,
                    ) by {
                        if o != owner@ {
                            self.lemma_one_more(&before, o);
                        }
                    }
                }
                Ok(())
            },
            Err(e) => Err(e),
        }
    }

    /// Stores a new, uncompleted record for the owner and returns its
    /// sequence number: the owner's counter, which then moves on by one.
    /// A missing counter is reported before a bad title.
    pub fn create_todo(&mut self, owner: &[u8; 32], title: String) -> (r: Result<u64, TodoError>)
        requires
            old(self).wf(),
            old(self).counter_of(owner@) matches Some(c) ==> c.next_index < u64::MAX,
        ensures
            final(self).wf(),
            match r {
                Ok(n) => create_verdict(old(self).counter_of(owner@) is Some, title@) is Ok
                    && created(old(self), final(self), owner@, title@, n),
                Err(e) => create_verdict(old(self).counter_of(owner@) is Some, title@) == Err::<
                    (),
                    TodoError,
                >(e) && final(self).same_as(old(self)),
            },
    {
        let ghost before = *self;
        let found = self.find(owner);
        let mut ctx = CreateTodo {
            counter: match found {
                Some(i) => Some(self.ledgers[i].counter),
                None => None,
            },
            todo: None,
        };
        match crate::instruction::create_todo(&mut ctx, title) {
            Ok(()) => {
                let i = found.unwrap();
                let counter = ctx.counter.unwrap();
                let ledger = &mut self.ledgers[i];
                let n = ledger.counter.next_index;
                ledger.counter = counter;
                ledger.todos.push(ctx.todo);
                proof {
                    assert(before.ledgers@[i as int].wf());
                    assert(self.ledgers@[i as int].todos@ == before.ledgers@[i as int].todos@.push(
                        ctx.todo,
                    ));
                    assert(self.ledgers@ =~= before.ledgers@.update(
                        i as int,
                        self.ledgers@[i as int],
                    ));
                    self.lemma_changed_in_place(&before, i as int);
                }
                Ok(n)
            },
            Err(e) => Err(e),
        }
    }

    /// Marks the owner's record under the sequence number as done. A record
    /// that is done stays done.
    pub fn mark_complete(&mut self, owner: &[u8; 32], todo_index: u64) -> (r: Result<
        (),
        TodoError,
    >)
        requires
            old(self).wf(),
        ensures
            final(self).wf(),
            r == lookup_verdict(old(self).todo_at(owner@, todo_index) is Some),
            r is Ok ==> completed(old(self), final(self), owner@, todo_index),
            r is Err ==> final(self).same_as(old(self)),
    {
        let ghost before = *self;
        match self.locate(owner, todo_index) {
            Some((i, n)) => {
                let slot = &mut self.ledgers[i].todos[n];
                let mut ctx = MarkComplete { todo: slot.take() };
                let r = crate::instruction::mark_complete(&mut ctx, todo_index);
                *slot = ctx.todo;
                proof {
                    self.lemma_slot_changed(&before, i as int, n as int);
                }
                r
            },
            None => {
                let mut ctx = MarkComplete { todo: None };
                crate::instruction::mark_complete(&mut ctx, todo_index)
            },
        }
    }

    /// Gives the owner's record under the sequence number a new title and
    /// leaves its status alone. A missing record is reported before a bad
    /// title.
    pub fn update_todo(&mut self, owner: &[u8; 32], todo_index: u64, new_title: String) -> (r:
        Result<(), TodoError>)
        requires
            old(self).wf(),
        ensures
            final(self).wf(),
            r == update_verdict(old(self).todo_at(owner@, todo_index) is Some, new_title@),
            r is Ok ==> updated(old(self), final(self), owner@, todo_index, new_title@),
            r is Err ==> final(self).same_as(old(self)),
    {
        let ghost before = *self;
        match self.locate(owner, todo_index) {
            Some((i, n)) => {
                let slot = &mut self.ledgers[i].todos[n];
                let mut ctx = UpdateTodo { todo: slot.take() };
                let r = crate::instruction::update_todo(&mut ctx, todo_index, new_title);
                *slot = ctx.todo;
                proof {
                    before.lemma_record_below_counter(owner@, todo_index);
                    self.lemma_slot_changed(&before, i as int, n as int);
                }
                r
            },
            None => {
                let mut ctx = UpdateTodo { todo: None };
                crate::instruction::update_todo(&mut ctx, todo_index, new_title)
            },
        }
    }

    /// Removes the owner's record under the sequence number, done or not.
    /// The number is not given out again.
    pub fn delete_todo(&mut self, owner: &[u8; 32], todo_index: u64) -> (r: Result<(), TodoError>)
        requires
            old(self).wf(),
        ensures
            final(self).wf(),
            r == lookup_verdict(old(self).todo_at(owner@, todo_index) is Some),
            r is Ok ==> deleted(old(self), final(self), owner@, todo_index),
            r is Err ==> final(self).same_as(old(self)),
    {
        let ghost before = *self;
        match self.locate(owner, todo_index) {
            Some((i, n)) => {
                let slot = &mut self.ledgers[i].todos[n];
                let mut ctx = DeleteTodo { todo: slot.take() };
                let r = crate::instruction::delete_todo(&mut ctx, todo_index);
                *slot = ctx.todo;
                proof {
                    self.lemma_slot_changed(&before, i as int, n as int);
                }
                r
            },
            None => {
                let mut ctx = DeleteTodo { todo: None };
                crate::instruction::delete_todo(&mut ctx, todo_index)
            },
        }
    }

    /// What holds after a change to one slot of the ledger at `i`.
    proof fn lemma_slot_changed(&self, before: &Store, i: int, n: int)
        requires
            before.wf(),
            0 <= i < before.ledgers@.len(),
            0 <= n < before.ledgers@[i].todos@.len(),
            self.ledgers@.len() == before.ledgers@.len(),
            self.ledgers@[i].todos@.len() == before.ledgers@[i].todos@.len(),
            self.ledgers@ == before.ledgers@.update(i, self.ledgers@[i]),
            self.ledgers@[i].owner == before.ledgers@[i].owner,
            self.ledgers@[i].counter == before.ledgers@[i].counter,
            self.ledgers@[i].todos@ == before.ledgers@[i].todos@.update(
                n,
                self.ledgers@[i].todos@[n],
            ),
            self.ledgers@[i].todos@[n] matches Some(t) ==> t@.is_valid(),
        ensures
            self.wf(),
            forall|o: Seq<u8>| self.counter_of(o) == before.counter_of(o),
            self.same_todos_but(before, before.ledgers@[i].owner@, n as u64),
            self.todo_at(before.ledgers@[i].owner@, n as u64) == slot_view(
                self.ledgers@[i].todos@[n],
            ),
    {
        let owner = before.ledgers@[i].owner@;
        assert(before.ledgers@[i].wf());
        assert forall|m: int| 0 <= m < self.ledgers@[i].todos@.len() implies (
        #[trigger] self.ledgers@[i].todos@[m] matches Some(t) ==> t@.is_valid()) by {
            if m != n {
                assert(self.ledgers@[i].todos@[m] == before.ledgers@[i].todos@[m]);
            }
        }
        self.lemma_changed_in_place(before, i);
        assert forall|o: Seq<u8>| self.counter_of(o) == before.counter_of(o) by {
            if o == owner {
                assert(self.ledgers@[i].counter == before.ledgers@[i].counter);
            }
        }
        assert forall|o: Seq<u8>, m: u64| !(o == owner && m == n as u64) implies self.todo_at(o, m)
            == before.todo_at(o, m) by {
            if o == owner {
                if m < before.ledgers@[i].todos@.len() {
                    assert(self.ledgers@[i].todos@[m as int]
                        == before.ledgers@[i].todos@[m as int]);
                }
                assert(self.ledgers@[i].todo_at(m) == before.ledgers@[i].todo_at(m));
            }
        }
    }
}

} // verus!
