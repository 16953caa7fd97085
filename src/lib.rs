//! Per-thread I/O priorities for the threads of a managed runtime.
//!
//! The library holds the logic of the agent: compiling the operator's rules,
//! walking the runtime's self-describing layout table, computing the addresses
//! that lead from a managed thread to its operating-system thread id, and
//! choosing the priority class that applies to a thread name.
pub mod enforce;
pub mod layout;
pub mod level;
pub mod offsets;
pub mod options;
pub mod rules;
pub mod text;
