//! Showing the game's packets to the registered handlers.

use crate::wpe::packet::{spec_parse, GamePacket, GamePacketView, PacketAction, PacketHandler};
use crate::wpe::windivert::WinDivertHandle;
use crate::wpe::{WpeError, WpeErrorView};
use vstd::prelude::*;

verus! {

/// How long the receive loop waits after a failed receive, in milliseconds.
pub const RECV_RETRY_MS: u64 = 100;

/// Receives the packets of one process and shows them to its handlers.
pub struct PacketInterceptor<H: PacketHandler> {
    pid: u32,
    running: bool,
    handlers: Vec<H>,
}

/// What the receive loop does next.
#[derive(Debug)]
pub enum RunStep {
    /// Leave the loop.
    Stop,
    /// Receive again at once.
    Continue,
    /// Sleep for this many milliseconds, then receive again.
    Retry(u64),
}

impl<H: PacketHandler> PacketInterceptor<H> {
    pub closed spec fn pid(&self) -> u32 {
        self.pid
    }

    pub closed spec fn is_running(&self) -> bool {
        self.running
    }

    /// The registered handlers, in the order in which they are asked.
    pub closed spec fn handlers(&self) -> Seq<H> {
        self.handlers@
    }

    /// An interceptor for the traffic of process `pid`: running, without
    /// handlers.
    pub fn new(pid: u32) -> (r: Result<Self, WpeError>)
        ensures
            r matches Ok(i) && i.pid() == pid && i.is_running() && i.handlers().len() == 0,
    {
        Ok(Self { pid, running: true, handlers: Vec::new() })
    }

    /// Adds a handler after those already registered.
    pub fn register_handler(&mut self, handler: H)
        ensures
            final(self).handlers() == old(self).handlers().push(handler),
            final(self).pid() == old(self).pid(),
            final(self).is_running() == old(self).is_running(),
    {
        self.handlers.push(handler);
    }

    /// Tells the receive loop to end.
    pub fn stop(&mut self)
        ensures
            !final(self).is_running(),
            final(self).pid() == old(self).pid(),
            final(self).handlers() == old(self).handlers(),
    {
        self.running = false;
    }

    /// Whether the receive loop goes on.
    pub fn running(&self) -> (r: bool)
        ensures
            r == self.is_running(),
    {
        self.running
    }

    /// Reads one packet and shows it to the handlers in order, up to the
    /// first that does not forward it. Fails exactly when the bytes are no
    /// packet, with the reader's error.
    pub fn process_packet(&self, data: &[u8]) -> (r: Result<(), WpeError>)
        ensures
            match r {
                Ok(_) => spec_parse(data@) is Ok,
                Err(e) => spec_parse(data@) == Err::<GamePacketView, WpeErrorView>(e@),
            },
    {
        let packet = match GamePacket::parse(data) {
            Ok(p) => p,
            Err(e) => {
                return Err(e);
            },
        };
        let mut i: usize = 0;
        while i < self.handlers.len()
            invariant
                i <= self.handlers.len(),
                spec_parse(data@) is Ok,
            decreases self.handlers.len() - i,
        {
            match self.handlers[i].handle_outbound(&packet) {
                PacketAction::Forward => {},
                PacketAction::Modified(_) => {
                    return Ok(());
                },
                PacketAction::Drop => {
                    return Ok(());
                },
                PacketAction::Inject(_) => {
                    return Ok(());
                },
            }
            i += 1;
        }
        Ok(())
    }

    /// One round of the receive loop, given what the driver handed over. A
    /// stopped interceptor and a driver that is not running end the loop; a
    /// packet is processed, whatever comes of it; any other failure is
    /// retried after a pause.
    pub fn run_step(&self, received: Result<Vec<u8>, WpeError>) -> (r: RunStep)
        ensures
            !self.is_running() ==> r is Stop,
            self.is_running() ==> match received {
                Ok(_) => r is Continue,
                Err(e) => if e@ == WpeErrorView::NotRunning {
                    r is Stop
                } else {
                    (r matches RunStep::Retry(ms) && ms == RECV_RETRY_MS)
                },
            },
    {
        if !self.running {
            return RunStep::Stop;
        }
        match received {
            Ok(data) => {
                let _ = self.process_packet(data.as_slice());
                RunStep::Continue
            },
            Err(WpeError::NotRunning) => RunStep::Stop,
            Err(_) => RunStep::Retry(RECV_RETRY_MS),
        }
    }
}

/// Opens the driver handle for the receive loop of an interceptor.
pub fn open_for<H: PacketHandler>(interceptor: &PacketInterceptor<H>) -> (r: Result<
    WinDivertHandle,
    WpeError,
>)
    ensures
        r matches Ok(h) && h.pid() == interceptor.pid() && h.is_open(),
{
    WinDivertHandle::open(interceptor.pid)
}

} // verus!
