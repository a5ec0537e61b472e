//! Actions that apply a target state.
pub mod exchange;
pub mod http;
