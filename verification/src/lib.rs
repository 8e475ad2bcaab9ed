//! An in-memory table of short text tasks and the request router that
//! serves it.
//!
//! [`store`] holds the table and its model; [`route`] is the grammar of
//! methods and URLs; [`router`] turns a route and an optional body into calls
//! on the table and a [`router::Response`]; [`laws`] states what holds of
//! every state and every sequence of operations.

pub mod laws;
pub mod route;
pub mod router;
pub mod store;

pub use route::Route;
pub use router::{
    dispatch, listing, path_of, route_request, Body, GetTaskResponse, Response, UpdateTaskRequest,
};
pub use store::{StoreModel, Task, TaskManager, TaskView};
