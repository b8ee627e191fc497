//! Sending packets of the launcher's own making.

use crate::wpe::packet::GamePacket;
use crate::wpe::windivert::WinDivertHandle;
use crate::wpe::WpeError;
use vstd::prelude::*;

verus! {

/// Sends packets into the traffic of one process.
pub struct PacketInjector {
    handle: WinDivertHandle,
}

impl PacketInjector {
    /// The driver handle that the injector sends through.
    pub closed spec fn handle(&self) -> WinDivertHandle {
        self.handle
    }

    /// An injector for the traffic of process `pid`, on an open handle.
    pub fn new(pid: u32) -> (r: Result<Self, WpeError>)
        ensures
            r matches Ok(injector) && injector.handle().pid() == pid && injector.handle().is_open(),
    {
        match WinDivertHandle::open(pid) {
            Ok(handle) => Ok(Self { handle }),
            Err(e) => Err(e),
        }
    }

    /// Builds `packet` and sends it. This succeeds exactly while the handle
    /// is open.
    pub fn inject(&self, packet: GamePacket) -> (r: Result<(), WpeError>)
        ensures
            r is Ok <==> self.handle().is_open(),
    {
        let data = match packet.build() {
            Ok(bytes) => bytes,
            Err(e) => {
                return Err(e);
            },
        };
        self.handle.send(data.as_slice())
    }
}

} // verus!
