//! Queue, plan and run package transactions across the system repository,
//! the community helper and the sandboxed-app manager, behind one validated
//! path to root.

pub mod appstream;
pub mod cache;
pub mod controller;
pub mod details;
pub mod drawer;
pub mod executor;
pub mod helper;
pub mod lock;
pub mod models;
pub mod paths;
pub mod processes;
pub mod providers;
pub mod runner;
pub mod search;
pub mod text;
pub mod transactions;
pub mod updates;
