//! What is asked of the Teams and Graph services, and how their replies read.
pub mod calendar;
pub mod calweek;
pub mod channels;
pub mod chat;
pub mod client;
pub mod files;
pub mod filesearch;
pub mod media;
pub mod notes;
pub mod planner;
pub mod recordings;
pub mod schedule;
pub mod search;
pub mod tabs;
pub mod teams;
pub mod todo;
pub mod transcripts;
