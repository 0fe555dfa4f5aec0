//! Orchestration core of a reminder bot: intent routing, multi-turn
//! clarification sessions, the approval workflow for drafted notifications,
//! and the delivery scheduler over persisted notifications.
//!
//! Everything here is synchronous and free of I/O. Calls to the language
//! model, the chat platform and the disk are made by the caller, who hands
//! their outcomes to the functions of this crate.
pub mod action;
pub mod config;
pub mod events;
pub mod ids;
pub mod json;
pub mod keyed;
pub mod notification;
pub mod routing;
pub mod services;
pub mod session;
pub mod text;
pub mod time;
pub mod todo;
