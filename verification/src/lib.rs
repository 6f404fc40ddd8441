use vstd::prelude::*;

pub mod bridge;
pub mod discovery;
pub mod focus;
pub mod hook_config;
pub mod hooks;
pub mod json;
pub mod models;
pub mod notify;
pub mod session_store;
pub mod state;
pub mod text;
pub mod time;
pub mod window;

pub use models::{SessionStatus, SessionsPayload as AppSnapshot};
pub use state::CoreState;

verus! {

} // verus!
