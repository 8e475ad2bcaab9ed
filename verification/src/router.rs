//! The request router: from a route and a body to calls on the task table
//! and a response.

use crate::route::{path_part, request_route, Route};
use crate::store::{
    no_such_task, text_view, views_of, StoreModel, Task, TaskManager, TaskView,
};
use vstd::prelude::*;
use vstd::std_specs::hash::spec_hash_map_iter;
use vstd::std_specs::iter::IteratorSpec;

verus! {

broadcast use vstd::std_specs::hash::group_hash_axioms;

/// The body of a create or update request: both fields are optional.
pub struct UpdateTaskRequest {
    pub text: Option<String>,
    pub done: Option<bool>,
}

/// What an [`UpdateTaskRequest`] means in contracts.
pub struct PatchView {
    pub text: Option<Seq<char>>,
    pub done: Option<bool>,
}

impl View for UpdateTaskRequest {
    type V = PatchView;

    open spec fn view(&self) -> PatchView {
        PatchView { text: text_view(self.text), done: self.done }
    }
}

/// A task as a response shows it.
pub struct GetTaskResponse {
    pub text: String,
    pub done: bool,
}

impl View for GetTaskResponse {
    type V = TaskView;

    open spec fn view(&self) -> TaskView {
        TaskView { text: self.text@, done: self.done }
    }
}

impl GetTaskResponse {
    /// Shows a task as it is.
    pub fn from(t: &Task) -> (shown: Self)
        ensures
            shown@ == t@,
    {
        Self { text: t.text.clone(), done: t.done }
    }
}

/// What a response carries. Each variant but `Empty` is sent as JSON.
pub enum Body {
    /// Nothing.
    Empty,
    /// A string: a task's path, or an error message.
    Text(String),
    /// One task.
    Task(GetTaskResponse),
    /// An object from each task's path to the task.
    Listing(Vec<(String, GetTaskResponse)>),
}

/// What a [`Body`] means in contracts.
pub enum BodyView {
    Empty,
    Text(Seq<char>),
    Task(TaskView),
    Listing(Seq<(Seq<char>, TaskView)>),
}

/// The entries of a listing by their views.
pub open spec fn entry_views(entries: Seq<(String, GetTaskResponse)>) -> Seq<(Seq<char>, TaskView)> {
    entries.map_values(|e: (String, GetTaskResponse)| (e.0@, e.1@))
}

impl View for Body {
    type V = BodyView;

    open spec fn view(&self) -> BodyView {
        match self {
            Body::Empty => BodyView::Empty,
            Body::Text(text) => BodyView::Text(text@),
            Body::Task(task) => BodyView::Task(task@),
            Body::Listing(entries) => BodyView::Listing(entry_views(entries@)),
        }
    }
}

/// A response: a status code and a body.
pub struct Response {
    pub status_code: u16,
    pub body: Body,
}

/// What a [`Response`] means in contracts.
pub struct ResponseView {
    pub status_code: u16,
    pub body: BodyView,
}

impl View for Response {
    type V = ResponseView;

    open spec fn view(&self) -> ResponseView {
        ResponseView { status_code: self.status_code, body: self.body@ }
    }
}

/// The character that writes a digit below ten.
pub open spec fn digit_char(d: nat) -> char {
    (d + 48) as u8 as char
}

/// A number in base ten, without leading zeros.
pub open spec fn decimal_digits(n: nat) -> Seq<char>
    decreases n,
{
    if n < 10 {
        seq![digit_char(n)]
    } else {
        decimal_digits(n / 10).push(digit_char(n % 10))
    }
}

/// The path of a task: `/task/` and its identifier in base ten.
pub open spec fn task_path(id: usize) -> Seq<char> {
    "/task/"@ + decimal_digits(id as nat)
}

/// The entries that list `tasks` in the order `ids`.
pub open spec fn listed(ids: Seq<usize>, tasks: Map<usize, TaskView>) -> Seq<(Seq<char>, TaskView)> {
    Seq::new(ids.len(), |i: int| (task_path(ids[i]), tasks[ids[i]]))
}

/// Whether `entries` lists `tasks`: every task once, in some order, each
/// under its path.
pub open spec fn is_listing_of(entries: Seq<(Seq<char>, TaskView)>, tasks: Map<usize, TaskView>)
    -> bool {
    &&& entries.len() == tasks.len()
    &&& exists|ids: Seq<usize>|
        {
            &&& ids.no_duplicates()
            &&& ids.to_set() == tasks.dom()
            &&& #[trigger] listed(ids, tasks) == entries
        }
}

/// The response to a lookup of `id`.
pub open spec fn lookup_response(s: StoreModel, id: usize) -> ResponseView {
    match s.get(id) {
        Some(task) => ResponseView { status_code: 200, body: BodyView::Task(task) },
        None => ResponseView { status_code: 404, body: BodyView::Text(no_such_task()) },
    }
}

/// The text that a create request gives, if its body was read and has one.
pub open spec fn new_text(body: Option<PatchView>) -> Option<Seq<char>> {
    match body {
        Some(patch) => patch.text,
        None => None,
    }
}

/// The table after a request. A body of `None` is one that could not be read.
pub open spec fn next_state(s: StoreModel, route: Route, body: Option<PatchView>) -> StoreModel {
    match route {
        Route::Create => match new_text(body) {
            Some(text) => s.add(text),
            None => s,
        },
        Route::Update(id) => match body {
            Some(patch) => s.set(id, patch.text, patch.done),
            None => s,
        },
        Route::Delete(id) => s.delete(id),
        _ => s,
    }
}

/// Whether `response` answers a request made in state `s`.
pub open spec fn answers(
    s: StoreModel,
    route: Route,
    body: Option<PatchView>,
    response: ResponseView,
) -> bool {
    match route {
        Route::List => {
            &&& response.status_code == 200
            &&& response.body matches BodyView::Listing(entries)
            &&& is_listing_of(entries, s.tasks)
        },
        Route::Create => match new_text(body) {
            Some(_) => response == (ResponseView {
                status_code: 200,
                body: BodyView::Text(task_path(s.issued())),
            }),
            None => response == (ResponseView { status_code: 400, body: BodyView::Empty }),
        },
        Route::Fetch(id) => response == lookup_response(s, id),
        Route::Update(id) => match body {
            Some(patch) => response == lookup_response(s.set(id, patch.text, patch.done), id),
            None => response == (ResponseView { status_code: 400, body: BodyView::Empty }),
        },
        Route::Delete(id) => if s.tasks.contains_key(id) {
            response == (ResponseView { status_code: 204, body: BodyView::Empty })
        } else {
            response == (ResponseView { status_code: 404, body: BodyView::Text(no_such_task()) })
        },
        Route::Unknown => response == (ResponseView { status_code: 404, body: BodyView::Empty }),
    }
}

/// The view of a request body, where one was read.
pub open spec fn body_view(body: Option<UpdateTaskRequest>) -> Option<PatchView> {
    match body {
        Some(patch) => Some(patch@),
        None => None,
    }
}

/// Whether the table can serve the request: a create with a text needs an
/// identifier that the machine still has.
pub open spec fn can_serve(s: StoreModel, route: Route, body: Option<PatchView>) -> bool {
    route is Create && new_text(body) is Some ==> s.next_id < usize::MAX
}

/// Whether a request asks to create a task: a `POST` on `/task` whose body
/// has a text.
pub open spec fn creates(method: Seq<char>, url: Seq<char>, body: Option<PatchView>) -> bool {
    method == "POST"@ && path_part(url) == "/task"@ && new_text(body) is Some
}

/// The digit `d` as a string of one character.
fn digit_text(d: usize) -> (text: &'static str)
    requires
        d < 10,
    ensures
        text@ == seq![digit_char(d as nat)],
{
    proof {
        reveal_strlit("0");
        reveal_strlit("1");
        reveal_strlit("2");
        reveal_strlit("3");
        reveal_strlit("4");
        reveal_strlit("5");
        reveal_strlit("6");
        reveal_strlit("7");
        reveal_strlit("8");
        reveal_strlit("9");
    }
    let text = match d {
        0 => "0",
        1 => "1",
        2 => "2",
        3 => "3",
        4 => "4",
        5 => "5",
        6 => "6",
        7 => "7",
        8 => "8",
        _ => "9",
    };
    assert(text@ =~= seq![digit_char(d as nat)]);
    text
}

/// Appends `n` in base ten.
fn push_decimal(out: &mut String, n: usize)
    ensures
        final(out)@ == old(out)@ + decimal_digits(n as nat),
    decreases n,
{
    if n >= 10 {
        push_decimal(out, n / 10);
    }
    out.append(digit_text(n % 10));
    assert(final(out)@ =~= old(out)@ + decimal_digits(n as nat));
}

/// The path of the task `id`.
pub fn path_of(id: usize) -> (path: String)
    ensures
        path@ == task_path(id),
{
    let mut path = "/task/".to_owned();
    push_decimal(&mut path, id);
    path
}

/// The response to a lookup of `id`.
fn lookup(manager: &mut TaskManager, id: usize) -> (response: Response)
    ensures
        *final(manager) == *old(manager),
        response@ == lookup_response(old(manager)@, id),
{
    match manager.get(id) {
        Ok(task) => Response { status_code: 200, body: Body::Task(GetTaskResponse::from(task)) },
        Err(message) => Response { status_code: 404, body: Body::Text(message.to_owned()) },
    }
}

/// Every task of the table under its path, in the order the table gives.
pub fn listing(manager: &TaskManager) -> (entries: Vec<(String, GetTaskResponse)>)
    ensures
        is_listing_of(entry_views(entries@), manager@.tasks),
{
    let tasks = manager.all();
    let ghost walk = spec_hash_map_iter(tasks).remaining();
    let mut entries: Vec<(String, GetTaskResponse)> = Vec::new();
    for pair in it: tasks.iter()
        invariant
            it.seq() == walk,
            walk == spec_hash_map_iter(tasks).remaining(),
            walk.no_duplicates(),
            entries.len() == it.index(),
            forall|j: int|
                0 <= j < entries.len() ==> (#[trigger] entries[j]).0@ == task_path(*walk[j].0)
                    && entries[j].1@ == (*walk[j].1)@,
    {
        let (id, task) = pair;
        entries.push((path_of(*id), GetTaskResponse::from(task)));
    }
    proof {
        let ids = Seq::new(walk.len(), |i: int| *walk[i].0);
        let shown = entry_views(entries@);
        let table = manager@.tasks;
        assert(table == views_of(tasks@));
        assert(table.dom() =~= tasks@.dom());
        assert forall|i: int, j: int| 0 <= i < ids.len() && 0 <= j < ids.len() && i != j implies ids[i]
            != ids[j] by {
            assert(tasks@.contains_key(*walk[i].0) && tasks@[*walk[i].0] == *walk[i].1);
            assert(tasks@.contains_key(*walk[j].0) && tasks@[*walk[j].0] == *walk[j].1);
            if ids[i] == ids[j] {
                assert(walk[i] == walk[j]);
            }
        }
        assert forall|id: usize| ids.to_set().contains(id) == table.dom().contains(id) by {
            if ids.to_set().contains(id) {
                let i = choose|i: int| 0 <= i < ids.len() && ids[i] == id;
                assert(tasks@.contains_key(*walk[i].0));
            }
            if table.dom().contains(id) {
                assert(tasks@.contains_key(id));
                assert(walk.contains((&id, &tasks@[id])));
                let i = choose|i: int| 0 <= i < walk.len() && walk[i] == (&id, &tasks@[id]);
                assert(ids[i] == id);
            }
        }
        assert(ids.to_set() =~= table.dom());
        assert forall|i: int| 0 <= i < ids.len() implies listed(ids, table)[i] == shown[i] by {
            assert(tasks@.contains_key(*walk[i].0) && tasks@[*walk[i].0] == *walk[i].1);
            assert(shown[i] == (entries[i].0@, entries[i].1@));
        }
        assert(listed(ids, table) =~= shown);
    }
    entries
}

/// Serves one request whose route is known. A `body` of `None` is a body
/// that could not be read; routes that read none ignore it.
pub fn dispatch(manager: &mut TaskManager, route: Route, body: Option<UpdateTaskRequest>) -> (response:
    Response)
    requires
        old(manager).wf(),
        can_serve(old(manager)@, route, body_view(body)),
    ensures
        final(manager).wf(),
        final(manager)@ == next_state(old(manager)@, route, body_view(body)),
        answers(old(manager)@, route, body_view(body), response@),
{
    match route {
        Route::List => Response { status_code: 200, body: Body::Listing(listing(manager)) },
        Route::Create => match body {
            Some(UpdateTaskRequest { text: Some(text), done: _ }) => {
                let id = manager.add(Some(text));
                Response { status_code: 200, body: Body::Text(path_of(id)) }
            },
            _ => Response { status_code: 400, body: Body::Empty },
        },
        Route::Fetch(id) => lookup(manager, id),
        Route::Update(id) => match body {
            Some(patch) => {
                let _ = manager.set(id, patch.text, patch.done);
                lookup(manager, id)
            },
            None => Response { status_code: 400, body: Body::Empty },
        },
        Route::Delete(id) => match manager.delete(id) {
            Ok(_) => Response { status_code: 204, body: Body::Empty },
            Err(message) => Response { status_code: 404, body: Body::Text(message.to_owned()) },
        },
        Route::Unknown => Response { status_code: 404, body: Body::Empty },
    }
}

/// Serves one request: finds its route, then answers it.
pub fn route_request(
    manager: &mut TaskManager,
    method: &str,
    url: &str,
    body: Option<UpdateTaskRequest>,
) -> (response: Response)
    requires
        old(manager).wf(),
        creates(method@, url@, body_view(body)) ==> old(manager)@.next_id < usize::MAX,
    ensures
        final(manager).wf(),
        final(manager)@ == next_state(old(manager)@, request_route(method@, url@), body_view(body)),
        answers(old(manager)@, request_route(method@, url@), body_view(body), response@),
{
    let route = Route::resolve(method, url);
    dispatch(manager, route, body)
}

} // verus!
