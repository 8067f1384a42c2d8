//! The commands of the WebDriver protocol: what is sent and what comes back.

pub mod err;
pub mod session;
pub mod status;
pub mod get_url;
pub mod find_elem;
pub mod actions;
