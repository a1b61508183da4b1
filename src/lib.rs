//! A mail folder seen as a to-do list.
//!
//! The poller engine keeps one authenticated session to a remote mail store,
//! polls a folder on a self-paced clock, turns the messages it finds into
//! tasks and deletes a message when its task is completed. Every decision is
//! taken here as a transition from a state and an event to a new state and a
//! list of effects; the code that owns the channels, the network and the
//! clock performs those effects and reports what came of them.
use vstd::prelude::*;

pub mod config;
pub mod engine;
pub mod extract;
pub mod pacer;
pub mod subject;
pub mod task;


pub use engine::{Engine, Phase};
pub use task::{Effect, Message, Task, TaskSet};

verus! {

/// Where the reminder database lives, relative to the home directory.
pub const DB: &'static str = ".mail-todo/todo.db";

/// Icon name used for the status icon and the notifications.
pub const ICON: &'static str = "task-due";

/// Folder watched when none is configured.
pub const MBOX: &'static str = "ToDo";

/// Application name shown in notifications.
pub const NAME: &'static str = "Mail-todo";

/// How long a desktop notification stays, in milliseconds.
pub const NOTIF_TIMEOUT: i32 = 5000;

/// Polling cadence, in one-second ticks.
pub const SLEEP: u64 = 60;

/// What is needed to open a session with the mail store.
#[derive(Debug)]
pub struct Creds {
    pub user: String,
    pub pass: String,
    pub host: String,
    pub port: u16,
}

} // verus!
