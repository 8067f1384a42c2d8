//! Capabilities, the requests that ask for them, and the results of
//! creating a session.

pub mod w3c;
pub mod comm;
pub mod gec;
pub mod chr;

pub use w3c::{W3cCapRequSetter, W3cCapaGetter, W3cCapaSetter, W3cSessResultGetter};
pub use comm::{CommCapRequ, CommCapa, CommSessResult};
pub use gec::{FirefoxCapaGetter, FirefoxCapaSetter, GeckoCapRequSetter};
pub use gec::{FirefoxCapa, GeckoCapRequ, GeckoSessResult};
pub use chr::{ChromCapRequSetter, ChromiumCapaGetter, ChromiumCapaSetter};
pub use chr::{ChromCapRequ, ChromSessResult, ChromiumCapa};
