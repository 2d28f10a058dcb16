//! Counting the CPUs that the current process may use: the logical count,
//! bounded by a control-group CPU quota where one applies, and the count of
//! physical cores.
//!
//! The library holds the decisions: how control-group membership and mount
//! lines are read, which hierarchy wins, how a quota becomes a whole number of
//! CPUs, how processor-relationship records are counted, and how the results
//! combine. Reading files and asking the operating system is left to callers,
//! which hand the raw values in.

pub mod bytes;
pub mod cgroup;
pub mod mount;
pub mod quota;
pub mod count;
