//! The rules of a workspace that runs one lead session and a few worker
//! sessions per project.

pub mod clock;
pub mod deliver;
pub mod launch;
pub mod order;
pub mod protocol;
pub mod seqs;
pub mod session_task;
pub mod single_instance;
pub mod slack;
pub mod slot;
pub mod spawn;
pub mod state;
pub mod store;
pub mod team;
pub mod text;
pub mod workers;
pub mod workspace;
