//! A container that owns a buffer of elements and maintains derived
//! fixed-width windows into it, plus an optional second-level snapshot of
//! those windows.

pub mod buffer;
