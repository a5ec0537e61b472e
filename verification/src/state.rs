
//! Threshold states: comparison, one state machine, and all of them together.
pub mod behaviour;
pub mod condition;
pub mod dispatch;
pub mod engine;
pub mod lasting;
pub mod machine;
pub mod properties;
pub mod secrecy;
