//! Core of a terminal-resident process monitor.
//!
//! The crate holds the sampling, sorting, selection and signal-dispatch
//! logic of the monitor: the part that must stay correct while processes
//! appear and disappear between a snapshot and an action taken on it.
//! Rendering and terminal handling live outside and only consume the
//! read-only state that these modules produce.

pub mod model;
pub mod order;
pub mod table;
pub mod selection;
pub mod sampler;
pub mod dispatch;
pub mod controller;

use vstd::prelude::*;

verus! {

#[verifier::external_type_specification]
#[verifier::external_body]
pub struct ExIoError(std::io::Error);

/// Fatal error of the monitor: terminal or stream setup failed at startup.
pub enum AppError {
    Io(std::io::Error),
}

impl From<std::io::Error> for AppError {
    fn from(e: std::io::Error) -> (r: AppError) {
        AppError::Io(e)
    }
}

impl vstd::std_specs::convert::FromSpecImpl<std::io::Error> for AppError {
    open spec fn obeys_from_spec() -> bool {
        true
    }

    open spec fn from_spec(e: std::io::Error) -> AppError {
        AppError::Io(e)
    }
}

} // verus!
