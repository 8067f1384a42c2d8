//! What only ChromeDriver's answers hold.

use vstd::prelude::*;
use crate::json::opt_string;

verus! {

/// What only ChromeDriver's answers hold, and no request can ask for.
#[derive(Debug)]
pub struct ChromiumSesAlnCap {
    pub chromedriver_version: Option<String>,
    pub user_data_dir: Option<String>,
    pub network_connection_enabled: Option<bool>,
    pub webauthn_extension_cred_blob: Option<bool>,
    pub webauthn_extension_large_blob: Option<bool>,
    pub webauthn_virtual_authenticators: Option<bool>,
}

/// What the alien part of a record holds.
pub struct ChromiumAlienView {
    pub chromedriver_version: Option<Seq<char>>,
    pub user_data_dir: Option<Seq<char>>,
    pub network_connection_enabled: Option<bool>,
    pub webauthn_extension_cred_blob: Option<bool>,
    pub webauthn_extension_large_blob: Option<bool>,
    pub webauthn_virtual_authenticators: Option<bool>,
}

impl ChromiumAlienView {
    /// The alien part with nothing in it.
    pub open spec fn empty() -> ChromiumAlienView {
        ChromiumAlienView {
            chromedriver_version: None,
            user_data_dir: None,
            network_connection_enabled: None,
            webauthn_extension_cred_blob: None,
            webauthn_extension_large_blob: None,
            webauthn_virtual_authenticators: None,
        }
    }
}

impl View for ChromiumSesAlnCap {
    type V = ChromiumAlienView;

    open spec fn view(&self) -> ChromiumAlienView {
        ChromiumAlienView {
            chromedriver_version: opt_string(self.chromedriver_version),
            user_data_dir: opt_string(self.user_data_dir),
            network_connection_enabled: self.network_connection_enabled,
            webauthn_extension_cred_blob: self.webauthn_extension_cred_blob,
            webauthn_extension_large_blob: self.webauthn_extension_large_blob,
            webauthn_virtual_authenticators: self.webauthn_virtual_authenticators,
        }
    }
}

impl Default for ChromiumSesAlnCap {
    fn default() -> (r: Self)
        ensures
            r@ == ChromiumAlienView::empty(),
    {
        ChromiumSesAlnCap {
            chromedriver_version: None,
            user_data_dir: None,
            network_connection_enabled: None,
            webauthn_extension_cred_blob: None,
            webauthn_extension_large_blob: None,
            webauthn_virtual_authenticators: None,
        }
    }
}

} // verus!
