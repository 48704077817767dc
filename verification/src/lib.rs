//! Typed access to the memory of another process, and a scheduler that paces
//! repeated access to the tick counter which that process keeps.

pub mod error;
pub mod memory;
pub mod retry;
pub mod scheduler;
pub mod sdk;
