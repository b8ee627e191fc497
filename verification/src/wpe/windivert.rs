//! The handle to the packet driver. This is a stand-in: it keeps track of
//! whether it is open, receives nothing and sends nothing.

use crate::wpe::{WpeError, WpeErrorView};
use vstd::prelude::*;

verus! {

/// A handle to the packet driver for the traffic of one process.
pub struct WinDivertHandle {
    pid: u32,
    running: bool,
}

impl WinDivertHandle {
    /// The process whose traffic the handle is for.
    pub closed spec fn pid(&self) -> u32 {
        self.pid
    }

    /// Whether the handle is open.
    pub closed spec fn is_open(&self) -> bool {
        self.running
    }

    /// Opens a handle for the traffic of process `pid`.
    pub fn open(pid: u32) -> (r: Result<Self, WpeError>)
        ensures
            r matches Ok(h) && h.pid() == pid && h.is_open(),
    {
        Ok(Self { pid, running: true })
    }

    /// Waits for a packet. The stand-in has none to give: the answer is
    /// always `NotRunning`.
    pub fn recv(&self) -> (r: Result<Vec<u8>, WpeError>)
        ensures
            r matches Err(e) && e@ == WpeErrorView::NotRunning,
    {
        Err(WpeError::NotRunning)
    }

    /// Sends a packet. On an open handle this succeeds, on a closed one it
    /// fails with `NotRunning`.
    pub fn send(&self, data: &[u8]) -> (r: Result<(), WpeError>)
        ensures
            self.is_open() ==> r is Ok,
            !self.is_open() ==> (r matches Err(e) && e@ == WpeErrorView::NotRunning),
    {
        let _ = data;
        if !self.running {
            return Err(WpeError::NotRunning);
        }
        Ok(())
    }

    /// Closes the handle.
    pub fn close(&mut self)
        ensures
            !final(self).is_open(),
            final(self).pid() == old(self).pid(),
    {
        self.running = false;
    }
}

} // verus!
