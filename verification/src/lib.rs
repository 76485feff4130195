//! Row-farming scheduler for escape-time fractal rendering.
//!
//! A coordinating process hands out image rows one at a time to whichever
//! worker asks next, stores the finished rows under their row index, and
//! turns the complete grid into an RGB image. The message transport and the
//! image file are the embedding program's business: this crate holds the
//! decisions, as state machines with proved contracts.

pub mod canvas;
pub mod decimal;
pub mod farm;
pub mod kernel;
pub mod palette;
pub mod protocol;
pub mod run;
pub mod scheduler;
pub mod worker;
