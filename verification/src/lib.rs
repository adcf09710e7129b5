//! Event-dispatch core of a multi-button control surface.
//!
//! Each button is watched by a debounce monitor that turns raw edges into
//! clean button events; events travel through one bounded FIFO channel to a
//! single dispatcher, which owns the indicator bank and applies the
//! mode-dependent update rules.

pub mod event;
pub mod debounce;
pub mod config;
pub mod dispatcher;
pub mod channel;
