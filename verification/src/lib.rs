//! Day-cycle display brightness control.
//!
//! Two components make up the library. The schedule evaluator maps a
//! wall-clock time to a target brightness percentage following a fixed
//! daily schedule with fade windows. The smooth actuator steps a device's
//! current level toward that target one unit at a time, tolerating
//! per-device failure without giving up on the other devices.
//!
//! Device enumeration, the hardware get/set calls, the host clock and the
//! outer polling loop are collaborators outside this crate; the library
//! holds the schedule arithmetic and the walk and aggregation logic, all
//! of it verified.

pub mod actuator;
pub mod schedule;
