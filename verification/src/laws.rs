//! Laws of the task table, stated over its model and proved once for all
//! states and all sequences of operations.

use crate::route::{
    all_digits, decimal_value, digit_value, is_digit, item_route, item_segments,
    lemma_first_index, parse_id, path_part, request_route, segment_text, Route,
};
use crate::router::{
    answers, decimal_digits, digit_char, lookup_response, next_state, task_path, BodyView,
    PatchView, ResponseView,
};
use crate::store::{StoreModel, TaskView};
use vstd::prelude::*;

verus! {

/// One change to the table.
pub enum Op {
    Add(Seq<char>),
    Update(usize, Option<Seq<char>>, Option<bool>),
    Delete(usize),
}

impl StoreModel {
    /// The state after one operation.
    pub open spec fn step(self, op: Op) -> StoreModel {
        match op {
            Op::Add(text) => self.add(text),
            Op::Update(id, text, done) => self.set(id, text, done),
            Op::Delete(id) => self.delete(id),
        }
    }

    /// The state after a sequence of operations, first to last.
    pub open spec fn run(self, ops: Seq<Op>) -> StoreModel
        decreases ops.len(),
    {
        if ops.len() == 0 {
            self
        } else {
            self.run(ops.drop_last()).step(ops.last())
        }
    }

    /// How many of the operations delete a task that is there when they run.
    pub open spec fn removed(self, ops: Seq<Op>) -> nat
        decreases ops.len(),
    {
        if ops.len() == 0 {
            0
        } else {
            let before = self.run(ops.drop_last());
            let hit: nat = match ops.last() {
                Op::Delete(id) => if before.tasks.contains_key(id) {
                    1
                } else {
                    0
                },
                _ => 0,
            };
            self.removed(ops.drop_last()) + hit
        }
    }
}

/// How many of the operations are adds.
pub open spec fn added(ops: Seq<Op>) -> nat
    decreases ops.len(),
{
    if ops.len() == 0 {
        0
    } else {
        added(ops.drop_last()) + if ops.last() is Add {
            1nat
        } else {
            0nat
        }
    }
}

/// A task that was just added is found under the identifier it was given,
/// with the text it was given and not yet done.
pub proof fn lemma_add_then_get(s: StoreModel, text: Seq<char>)
    ensures
        s.add(text).get(s.issued()) == Some(TaskView { text, done: false }),
{
}

/// One step keeps a valid table valid, as long as an add stays within the
/// identifiers the machine has, and never lowers the next identifier.
pub proof fn lemma_step_wf(s: StoreModel, op: Op)
    requires
        s.wf(),
        s.step(op).next_id <= usize::MAX,
    ensures
        s.step(op).wf(),
        s.next_id <= s.step(op).next_id,
        op is Add ==> s.step(op).next_id == s.next_id + 1,
{
}

/// The next identifier never goes down along a run, and each add moves it up
/// by one.
pub proof fn lemma_next_id_monotone(s: StoreModel, ops: Seq<Op>, i: int, j: int)
    requires
        0 <= i <= j <= ops.len(),
    ensures
        s.run(ops.take(i)).next_id <= s.run(ops.take(j)).next_id,
        i < j && ops[i] is Add ==> s.run(ops.take(i)).next_id < s.run(ops.take(j)).next_id,
    decreases j - i,
{
    if i < j {
        let shorter = ops.take(j - 1);
        let longer = ops.take(j);
        assert(longer.drop_last() =~= shorter);
        assert(longer.last() == ops[j - 1]);
        assert(s.run(longer) == s.run(shorter).step(ops[j - 1]));
        lemma_next_id_monotone(s, ops, i, j - 1);
    }
}

/// The identifiers that adds return are strictly increasing, whatever other
/// operations run in between: of two adds in one run, the later one is given
/// the larger identifier, so no identifier is given twice.
pub proof fn lemma_ids_strictly_increase(s: StoreModel, ops: Seq<Op>, i: int, j: int)
    requires
        s.wf(),
        s.run(ops).next_id <= usize::MAX,
        0 <= i < j < ops.len(),
        ops[i] is Add,
        ops[j] is Add,
    ensures
        s.run(ops.take(i)).issued() < s.run(ops.take(j)).issued(),
{
    lemma_next_id_monotone(s, ops, i, j);
    lemma_next_id_monotone(s, ops, j, ops.len() as int);
    assert(ops.take(ops.len() as int) =~= ops);
}

/// A valid table stays valid along a run that stays within the identifiers
/// the machine has.
pub proof fn lemma_run_wf(s: StoreModel, ops: Seq<Op>)
    requires
        s.wf(),
        s.run(ops).next_id <= usize::MAX,
    ensures
        s.run(ops).wf(),
    decreases ops.len(),
{
    if ops.len() > 0 {
        let before = s.run(ops.drop_last());
        assert(before.next_id <= before.step(ops.last()).next_id);
        lemma_run_wf(s, ops.drop_last());
        lemma_step_wf(before, ops.last());
    }
}

/// Updating only the flag keeps the text, updating only the text keeps the
/// flag, and updating neither keeps the whole table.
pub proof fn lemma_set_is_partial(
    s: StoreModel,
    id: usize,
    text: Seq<char>,
    done: bool,
)
    requires
        s.tasks.contains_key(id),
    ensures
        s.set(id, None, Some(done)).tasks[id] == (TaskView { text: s.tasks[id].text, done }),
        s.set(id, Some(text), None).tasks[id] == (TaskView { text, done: s.tasks[id].done }),
        s.set(id, None, None) == s,
{
    assert(s.set(id, None, None).tasks =~= s.tasks);
}

/// A set touches no task but the one it names.
pub proof fn lemma_set_keeps_others(
    s: StoreModel,
    id: usize,
    text: Option<Seq<char>>,
    done: Option<bool>,
    other: usize,
)
    requires
        other != id,
    ensures
        s.set(id, text, done).get(other) == s.get(other),
        s.set(id, text, done).tasks.dom() == s.tasks.dom(),
{
    assert(s.set(id, text, done).tasks.dom() =~= s.tasks.dom());
}

/// A deleted task is no longer found, and a second delete of it finds
/// nothing to remove and changes nothing.
pub proof fn lemma_delete_then_absent(s: StoreModel, id: usize)
    ensures
        s.delete(id).get(id) is None,
        !s.delete(id).tasks.contains_key(id),
        s.delete(id).delete(id) == s.delete(id),
{
}

/// The table holds as many tasks as were added less those that were deleted:
/// after a run it has its former size, plus the adds, minus the deletes that
/// found their task.
pub proof fn lemma_size_counts(s: StoreModel, ops: Seq<Op>)
    requires
        s.wf(),
        s.run(ops).next_id <= usize::MAX,
    ensures
        s.run(ops).tasks.len() + s.removed(ops) == s.tasks.len() + added(ops),
    decreases ops.len(),
{
    if ops.len() > 0 {
        let before = s.run(ops.drop_last());
        assert(before.next_id <= before.step(ops.last()).next_id);
        lemma_run_wf(s, ops.drop_last());
        lemma_size_counts(s, ops.drop_last());
        match ops.last() {
            Op::Add(text) => {},
            Op::Update(id, text, done) => {
                assert(before.set(id, text, done).tasks.dom() =~= before.tasks.dom());
            },
            Op::Delete(id) => {},
        }
    }
}

/// Starting from the empty table, `n` adds and `m` successful deletes leave
/// exactly `n - m` tasks.
pub proof fn lemma_size_from_empty(ops: Seq<Op>)
    requires
        StoreModel::empty().run(ops).next_id <= usize::MAX,
    ensures
        StoreModel::empty().run(ops).tasks.len() == added(ops) - StoreModel::empty().removed(ops),
{
    lemma_size_counts(StoreModel::empty(), ops);
}

/// A number written in base ten is made of digits only and reads back as
/// the same number.
pub proof fn lemma_decimal_round_trip(n: nat)
    ensures
        decimal_digits(n).len() > 0,
        all_digits(decimal_digits(n)),
        decimal_value(decimal_digits(n)) == n,
    decreases n,
{
    let written = decimal_digits(n);
    if n < 10 {
        assert(written.drop_last() =~= Seq::<char>::empty());
        assert(is_digit(digit_char(n)));
        assert(digit_value(digit_char(n)) == n);
        assert(decimal_value(written.drop_last()) == 0);
    } else {
        lemma_decimal_round_trip(n / 10);
        assert(written.drop_last() =~= decimal_digits(n / 10));
        assert(is_digit(digit_char(n % 10)));
        assert(digit_value(digit_char(n % 10)) == n % 10);
    }
}

/// The path under which a task is announced leads back to that task: as a
/// URL it has no query, nothing in it is percent-encoded, and it parses to
/// the task's identifier, whatever the method.
pub proof fn lemma_path_leads_back(method: Seq<char>, id: usize)
    ensures
        path_part(task_path(id)) == task_path(id),
        request_route(method, task_path(id)) == item_route(method, id),
{
    reveal_strlit("/task");
    reveal_strlit("/task/");
    reveal_strlit("task");
    let digits = decimal_digits(id as nat);
    let path = task_path(id);
    lemma_decimal_round_trip(id as nat);
    assert(path.len() == 6 + digits.len());
    assert forall|j: int| 0 <= j < path.len() implies path[j] != '?' && path[j] != '%' by {
        if j >= 6 {
            assert(path[j] == digits[j - 6]);
            assert(is_digit(digits[j - 6]));
        }
    }
    lemma_first_index(path, '?', path.len() as int);
    assert(path.take(path.len() as int) =~= path);

    let rest = path.drop_first();
    lemma_first_index(rest, '/', 4);
    assert(rest.take(4) =~= "task"@);
    assert(rest.skip(5) =~= digits);
    assert forall|j: int| 0 <= j < digits.len() implies digits[j] != '/' && digits[j] != '%' by {
        assert(is_digit(digits[j]));
    }
    assert(!digits.contains('/'));
    assert(!digits.contains('%'));
    assert(!"task"@.contains('%'));
    assert(item_segments(path) == Some(("task"@, digits)));
    assert(segment_text("task"@) == "task"@);
    assert(segment_text(digits) == digits);
    assert(is_digit(digits[0]));
    assert(parse_id(digits) == Some(id));
}

/// A created task is served: after a create request with a text, a `GET` of
/// the path that the create answered with shows that text, not yet done.
pub proof fn lemma_created_task_is_served(
    s: StoreModel,
    patch: PatchView,
    created: ResponseView,
    fetched: ResponseView,
)
    requires
        patch.text is Some,
        answers(s, Route::Create, Some(patch), created),
        answers(
            next_state(s, Route::Create, Some(patch)),
            request_route("GET"@, task_path(s.issued())),
            None,
            fetched,
        ),
    ensures
        created.status_code == 200,
        created.body == BodyView::Text(task_path(s.issued())),
        fetched == (ResponseView {
            status_code: 200,
            body: BodyView::Task(TaskView { text: patch.text.unwrap(), done: false }),
        }),
{
    lemma_path_leads_back("GET"@, s.issued());
}

/// A deleted task is gone for the router too: after a delete request, a
/// `GET` of the same task and a second delete both answer 404.
pub proof fn lemma_deleted_task_is_gone(
    s: StoreModel,
    id: usize,
    fetched: ResponseView,
    again: ResponseView,
)
    requires
        answers(next_state(s, Route::Delete(id), None), Route::Fetch(id), None, fetched),
        answers(next_state(s, Route::Delete(id), None), Route::Delete(id), None, again),
    ensures
        fetched.status_code == 404,
        again.status_code == 404,
        fetched == lookup_response(s.delete(id), id),
{
}

/// A listing shows as many tasks as were added less those that were
/// deleted: after a run from the empty table, the answer to a list request
/// has exactly that many entries.
pub proof fn lemma_listing_size(ops: Seq<Op>, response: ResponseView)
    requires
        StoreModel::empty().run(ops).next_id <= usize::MAX,
        answers(StoreModel::empty().run(ops), Route::List, None, response),
    ensures
        response.status_code == 200,
        response.body matches BodyView::Listing(entries) && entries.len() == added(ops)
            - StoreModel::empty().removed(ops),
{
    lemma_size_from_empty(ops);
}

} // verus!
