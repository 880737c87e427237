//! Wrap-around-safe earliest-deadline-first (EDF) task selection over a
//! fixed-width, cyclically overflowing 8-bit time domain.
//!
//! The clock and every deadline live in one byte and wrap silently on
//! overflow. The selector computes, for each pending task, its remaining
//! time-to-deadline by wrapping subtraction and picks the task with the
//! strictly minimal remaining value, breaking ties towards the earliest
//! admitted task. The domain can be read as signed (overdue tasks rank
//! first) or as unsigned (deadlines are always ahead); the two policies
//! are separate, independently verified code paths.

pub mod domain;
pub mod signed;
pub mod unsigned;
