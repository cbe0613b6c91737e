//! Algorithm profiling toolkit: the two-sum algorithm with its test-data
//! generator and profiler, and the state machines behind the terminal UI
//! (a counter, a text input with a character cursor, and focus handling).

pub mod algo_input;
pub mod catalog;
pub mod clock;
pub mod data_generation;
pub mod input;
pub mod main_ui;
pub mod counter_app;
pub mod listed_search;
pub mod two_sum;
