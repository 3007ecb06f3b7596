//! Orchestration core of a bootloader for a provable virtual machine: hint
//! dispatch, task loading and hash validation, builtin selection, the task
//! loop, and the packed-output and fact-topology encodings.

pub mod address;
pub mod builtins;
pub mod error;
pub mod external_hints;
pub mod fact_topology;
pub mod felt;
pub mod hint_processor;
pub mod hints;
pub mod packed_output;
pub mod program_hash;
pub mod program_loader;
pub mod simple_bootloader;
pub mod task;
pub mod vm;
