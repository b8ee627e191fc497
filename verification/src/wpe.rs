//! Observing and changing the game's outbound packets. The packet driver
//! behind it is a stand-in that captures and sends nothing.

pub mod injector;
pub mod interceptor;
pub mod packet;
pub mod windivert;

pub use injector::PacketInjector;
pub use interceptor::PacketInterceptor;
pub use packet::{GamePacket, PacketAction, PacketHandler};

use crate::error::{io_error_text, prefixed};
use vstd::prelude::*;
use vstd::string::*;

verus! {

/// What can go wrong with packets and with the driver.
#[derive(Debug)]
pub enum WpeError {
    WinDivert(String),
    PacketParse(String),
    PacketBuild(String),
    Io(std::io::Error),
    NotRunning,
}

pub type Result<T> = std::result::Result<T, WpeError>;

/// A `WpeError` with its texts as sequences of characters. An I/O error has
/// no view beyond its kind.
pub enum WpeErrorView {
    WinDivert(Seq<char>),
    PacketParse(Seq<char>),
    PacketBuild(Seq<char>),
    Io,
    NotRunning,
}

impl View for WpeError {
    type V = WpeErrorView;

    open spec fn view(&self) -> WpeErrorView {
        match self {
            WpeError::WinDivert(m) => WpeErrorView::WinDivert(m@),
            WpeError::PacketParse(m) => WpeErrorView::PacketParse(m@),
            WpeError::PacketBuild(m) => WpeErrorView::PacketBuild(m@),
            WpeError::Io(_) => WpeErrorView::Io,
            WpeError::NotRunning => WpeErrorView::NotRunning,
        }
    }
}

impl WpeErrorView {
    /// The text of the error where it is this crate's own.
    pub open spec fn message(self) -> Option<Seq<char>> {
        match self {
            WpeErrorView::WinDivert(m) => Some("WinDivert error: "@ + m),
            WpeErrorView::PacketParse(m) => Some("Packet parse error: "@ + m),
            WpeErrorView::PacketBuild(m) => Some("Packet build error: "@ + m),
            WpeErrorView::Io => None,
            WpeErrorView::NotRunning => Some("Not running"@),
        }
    }
}

impl WpeError {
    /// The error as a line of text. An I/O error is shown as `IO error: `
    /// followed by that error's own text.
    pub fn message(&self) -> (r: String)
        ensures
            match self@ {
                WpeErrorView::Io => r@.len() >= 10 && r@.take(10) == "IO error: "@,
                _ => Some(r@) == self@.message(),
            },
    {
        match self {
            WpeError::WinDivert(m) => prefixed("WinDivert error: ", m.as_str()),
            WpeError::PacketParse(m) => prefixed("Packet parse error: ", m.as_str()),
            WpeError::PacketBuild(m) => prefixed("Packet build error: ", m.as_str()),
            WpeError::Io(e) => {
                let text = io_error_text(e);
                let r = prefixed("IO error: ", text.as_str());
                proof {
                    reveal_strlit("IO error: ");
                    assert(r@.take(10) =~= "IO error: "@);
                }
                r
            },
            WpeError::NotRunning => "Not running".to_owned(),
        }
    }
}

} // verus!
