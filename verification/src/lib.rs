//! Verified core of a collection of small Rust study programs: a bank
//! account with an encapsulated balance, a bounded single-producer
//! single-consumer ring buffer, a stoppable work queue, interior-mutability
//! style counters and caches, the scheduling logic of a tiny async runtime,
//! the rules of a number-guessing game, a task board and tours of the
//! standard containers, a score board keyed by name, directory statistics
//! and small text helpers.

pub mod bank_account;
pub mod spsc_queue;
pub mod work_queue;
pub mod interior_mutability;
pub mod async_runtime;
pub mod guessing_game;
pub mod return_handle;
pub mod ownership;
pub mod struct_demo;
pub mod callbacks;
pub mod generic;
pub mod generic_constraints;
pub mod dir_stats;
pub mod text;
pub mod containers;
pub mod score_board;
