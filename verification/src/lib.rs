//! Core of an interactive terminal task manager: the view state machine,
//! form editing and validation, event application, and configuration checks.
//!
//! The surrounding process (terminal setup, network calls, rendering) feeds
//! this library plain values and executes the commands it hands back; every
//! state change to the application model goes through the functions here.

pub mod app;
pub mod config;
pub mod event;
pub mod form;
pub mod task;
pub mod text;
