//! The judging core of an online judge: the sandbox runner's binary protocol,
//! the executor's decisions for one submission, the worker's session, and the
//! server's registry of workers with its load-based dispatch.
pub mod admission;
pub mod auth;
pub mod codec;
pub mod dispatch;
pub mod executor;
pub mod judge;
pub mod judger;
pub mod models;
pub mod session;
pub mod text;
