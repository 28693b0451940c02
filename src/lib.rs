//! Runs a command whenever a trigger fires and supervises its lifecycle: the command's
//! parsing, the lifecycle of its process, the classification and filtering of file-system
//! events, the debouncing of bursts into restarts, and the timer and polling triggers.
pub mod command;
pub mod config;
pub mod debounce;
pub mod error;
pub mod events;
pub mod process;
pub mod trigger;
