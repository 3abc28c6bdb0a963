//! Request-dispatch core for a small web application suite: a path-template
//! compiler producing anchored matchers with named capture groups, a
//! method-keyed route table, a composable request pipeline with explicit
//! halt/continue control flow and a write-once response buffer, and a
//! keyed per-request extension store.

pub mod assoc;
pub mod conn;
pub mod ext;
pub mod media;
pub mod models;
pub mod forms;
pub mod plug;
pub mod probe;
pub mod re;
pub mod query;
pub mod request;
pub mod route;
pub mod router;
pub mod strutil;
pub mod template;
pub mod tryfile;
