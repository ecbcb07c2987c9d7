//! A small encrypted password vault: record model, envelope format, text
//! editing and the application state machine, each with its contract.
pub mod editor;
pub mod entropy;
pub mod error;
pub mod input;
pub mod app;
pub mod crypto;
pub mod model;
pub mod storage;
pub mod text;
pub mod theme;
pub mod ui;
