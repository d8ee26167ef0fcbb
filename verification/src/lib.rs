//! A lightweight client for Microsoft Teams: the logic, with what it does stated
//! as contracts and proved. Network, files, devices and the command line stand
//! in the program around it.
pub mod api;
pub mod auth;
pub mod bytes;
pub mod calling;
pub mod config;
pub mod dates;
pub mod encoding;
pub mod event_hub;
pub mod json;
pub mod order;
pub mod text;
pub mod web;
