//! Reading the connection tables that each platform offers: `/proc/net` on Linux,
//! `lsof` on macOS and `netstat` on Windows. Running the tools and reading the files
//! is left to the caller; these modules turn their text into records.

pub mod common;
pub mod linux;
pub mod macos;
pub mod windows;


use vstd::prelude::*;
use crate::models::{PortRecord, ProcessDetails};

verus! {

/// A source of connection tables.
pub trait PortBackend {
    /// The sockets open now, or why they could not be read.
    fn scan_ports(&mut self) -> Result<Vec<PortRecord>, String>;
}

/// A source of process information that can also stop processes.
pub trait ProcessBackend {
    /// What the process table says of a process, or why it could not be read.
    fn process_details(&mut self, pid: u32) -> Result<ProcessDetails, String>;

    /// Stops a process, gracefully (it may clean up) or not.
    fn stop_process(&mut self, pid: u32, graceful: bool) -> Result<(), String>;
}

/// How a process is asked to stop: terminated (SIGTERM on Unix) or killed (SIGKILL).
#[derive(Debug, Clone, Copy, PartialEq, Eq, Structural)]
pub enum StopSignal {
    Terminate,
    Kill,
}

/// The signal for a graceful stop is `Terminate`, otherwise `Kill`.
pub fn stop_signal(graceful: bool) -> (s: StopSignal)
    ensures
        s == (if graceful {
            StopSignal::Terminate
        } else {
            StopSignal::Kill
        }),
{
    if graceful {
        StopSignal::Terminate
    } else {
        StopSignal::Kill
    }
}

} // verus!
