//! Windows audio session management: opting the process out of
//! communication ducking.
pub mod ducking;
