pub mod auth;
pub mod backend;
pub mod cache;
pub mod fuzzy;
pub mod gcp;
pub mod ipc;
pub mod logs;
pub mod numbers;
pub mod offsets;
pub mod order;
pub mod poller;
pub mod refresh;
pub mod table;
pub mod text;
pub mod tui;
