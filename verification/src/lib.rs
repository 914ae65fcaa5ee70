//! Verified core of an agent runner: cron expression handling, an in-process
//! cron scheduler, action dispatch decisions and webhook response handling.
//! Network, storage and clock access live outside this crate; everything they
//! feed in or take out is a plain value handled by the functions here.

pub mod executors;
pub mod outside;
pub mod scheduler_loop;
pub mod text;
pub mod time;
