//! Turns the cumulative counters that an operating system exposes for its
//! processes, memory pools and devices into per-interval rates and
//! percentages, one polling tick at a time.

pub mod cpu;
pub mod disks;
pub mod error;
pub mod harvester;
pub mod memory;
pub mod nvidia;
pub mod processes;
pub mod ratio;
pub mod tables;
pub mod text;
pub mod users;
