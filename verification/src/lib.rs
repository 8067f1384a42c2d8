//! A client of the W3C WebDriver protocol, in its HTTP form and in its
//! bidirectional WebSocket form, without the sockets: the codecs of both
//! wire protocols, the negotiation of capabilities, and for each command
//! the request that is sent and the reading of the answer.

use vstd::prelude::*;

pub mod octets;
pub mod text;
pub mod httpp;
pub mod wsp;
pub mod json;
pub mod wdcmd;
pub mod genericdrv;
pub mod geckodrv;
pub mod chromedrv;
pub mod bidi;

pub use chromedrv::ChromeDriver;
pub use geckodrv::GeckoDriver;
pub use genericdrv::{
    CreateW3cSession, CreateWebDrvClient, InitAction, InitPlan, RendVendor, SessionMeta,
    WebDrvClient,
};

verus! {

/// What can go wrong at the client's boundary.
#[derive(Debug, PartialEq, Eq)]
pub enum WdcError {
    /// A fault that should not occur: an answer that cannot be read, or a
    /// command on a client without session.
    Buggy,
    /// The driver is busy creating a session; asking again may help.
    BusyCreateSession,
    /// The driver is busy with a session that has started; asking again
    /// may help.
    DriverNotReadyBusySession,
    NotReadyForNewSession,
    UnsupportedOperation,
    WebDriverNotReady,
    WebDriverRemoteConnectionFailed,
    /// An error that the driver reports: its kind and its message.
    BadDrvCmd(String, String),
}

} // verus!
