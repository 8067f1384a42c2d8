//! Chromium and ChromeDriver: the capabilities that are Chromium's own,
//! the request for them, and the result of creating a session.

use vstd::prelude::*;
use crate::json::{
    as_opt_str, bool_field, borrowed_list, entry, json_opt_bool, json_opt_str, json_opt_texts,
    json_parsed, members_view, need, object_field, opt_bool_json, opt_entry, opt_str_json,
    opt_string, opt_strs, opt_text, opt_texts, opt_texts_json, owned, owned_list, put, put_opt,
    read_bool, read_object, read_text, read_texts, required, strs, text_field, texts,
    texts_field, DeError, Entries, Json, JsonView, Members,
};
use super::comm::{
    bidi_entry, collected, copy_w3c, inserted, pairs_view, prefs_members, proxy_entry,
    read_session_parts, read_w3c, session_parts, timeouts_entry, w3c_lead, w3c_parsed, CommCapRequ,
    CommCapa, CommSessResult, CommSessResultVal, PrefsView, VarValTypeMap,
};
use super::gec::opt_pairs;
use super::w3c::{
    conflict_getters, conflict_w3c, purge_as_w3c, W3cCapRequSetter, W3cCapaGetter, W3cView,
};
use alien::{ChromiumAlienView, ChromiumSesAlnCap as AlienPart};

pub mod alien;

verus! {

/// The extension capabilities of Chromium.
#[derive(Debug)]
pub struct ChromiumSesExtCap {
    pub args: Option<Vec<String>>,
    pub binary: Option<String>,
    pub extensions: Option<Vec<String>>,
    pub prefs: Option<VarValTypeMap>,
    pub detach: Option<bool>,
    pub debugger_address: Option<String>,
    pub exclude_switches: Option<Vec<String>>,
    pub minidump_path: Option<String>,
    pub window_types: Option<Vec<String>>,
}

/// What the extension capabilities of Chromium hold.
pub struct ChromiumExtView {
    pub args: Option<Seq<Seq<char>>>,
    pub binary: Option<Seq<char>>,
    pub extensions: Option<Seq<Seq<char>>>,
    pub prefs: Option<PrefsView>,
    pub detach: Option<bool>,
    pub debugger_address: Option<Seq<char>>,
    pub exclude_switches: Option<Seq<Seq<char>>>,
    pub minidump_path: Option<Seq<char>>,
    pub window_types: Option<Seq<Seq<char>>>,
}

impl ChromiumExtView {
    /// The extension capabilities with every one absent.
    pub open spec fn empty() -> ChromiumExtView {
        ChromiumExtView {
            args: None,
            binary: None,
            extensions: None,
            prefs: None,
            detach: None,
            debugger_address: None,
            exclude_switches: None,
            minidump_path: None,
            window_types: None,
        }
    }

    /// Whether every extension capability is absent.
    pub open spec fn is_insig(self) -> bool {
        self == ChromiumExtView::empty()
    }

    /// The extension capabilities with the preferences put in one by one,
    /// which brings them into the order of their names.
    pub open spec fn ordered(self) -> ChromiumExtView {
        ChromiumExtView {
            prefs: match self.prefs {
                Some(m) => Some(collected(m)),
                None => None,
            },
            ..self
        }
    }
}

impl View for ChromiumSesExtCap {
    type V = ChromiumExtView;

    open spec fn view(&self) -> ChromiumExtView {
        ChromiumExtView {
            args: opt_texts(self.args),
            binary: opt_string(self.binary),
            extensions: opt_texts(self.extensions),
            prefs: match self.prefs {
                Some(p) => Some(p@),
                None => None,
            },
            detach: self.detach,
            debugger_address: opt_string(self.debugger_address),
            exclude_switches: opt_texts(self.exclude_switches),
            minidump_path: opt_string(self.minidump_path),
            window_types: opt_texts(self.window_types),
        }
    }
}

impl Default for ChromiumSesExtCap {
    fn default() -> (r: Self)
        ensures
            r@ == ChromiumExtView::empty(),
    {
        ChromiumSesExtCap {
            args: None,
            binary: None,
            extensions: None,
            prefs: None,
            detach: None,
            debugger_address: None,
            exclude_switches: None,
            minidump_path: None,
            window_types: None,
        }
    }
}

/// The additional capabilities of Chromium: none so far.
#[derive(Debug)]
pub struct ChromiumSesAddCap {}

impl Default for ChromiumSesAddCap {
    fn default() -> (r: Self) {
        ChromiumSesAddCap {  }
    }
}

/// The capabilities of a Chromium session.
pub type ChromiumCapa = CommCapa<ChromiumSesExtCap, ChromiumSesAddCap, AlienPart>;

/// The request for the capabilities of a Chromium session.
pub type ChromCapRequ = CommCapRequ<ChromiumCapa>;

/// The result of creating a session with ChromeDriver.
pub type ChromSessResult = CommSessResult<ChromiumCapa>;

/// Whether two records conflict: in their standard capabilities, or in
/// that both specify a binary or arguments.
pub open spec fn conflict_chromium(
    aw: W3cView,
    af: ChromiumExtView,
    bw: W3cView,
    bf: ChromiumExtView,
) -> bool {
    ||| conflict_w3c(aw, bw)
    ||| af.binary.is_some() && bf.binary.is_some()
    ||| af.args.is_some() && bf.args.is_some()
}

/// Getters for the capabilities that are Chromium's own.
pub trait ChromiumCapaGetter {
    /// The extension capabilities that the value holds.
    spec fn chromium(&self) -> ChromiumExtView;

    fn args(&self) -> (r: Option<Vec<&str>>)
        ensures
            opt_strs(r) == self.chromium().args,
    ;

    fn binary(&self) -> (r: Option<&str>)
        ensures
            opt_text(r) == self.chromium().binary,
    ;

    fn extensions(&self) -> (r: Option<Vec<&str>>)
        ensures
            opt_strs(r) == self.chromium().extensions,
    ;

    /// The preferences: names and values, in the order of the names.
    fn prefs(&self) -> (r: Option<Vec<(&str, &str)>>)
        ensures
            opt_pairs(r) == self.chromium().prefs,
    ;

    fn detach(&self) -> (r: Option<bool>)
        ensures
            r == self.chromium().detach,
    ;

    fn debugger_address(&self) -> (r: Option<&str>)
        ensures
            opt_text(r) == self.chromium().debugger_address,
    ;

    fn exclude_switches(&self) -> (r: Option<Vec<&str>>)
        ensures
            opt_strs(r) == self.chromium().exclude_switches,
    ;

    fn minidump_path(&self) -> (r: Option<&str>)
        ensures
            opt_text(r) == self.chromium().minidump_path,
    ;

    fn window_types(&self) -> (r: Option<Vec<&str>>)
        ensures
            opt_strs(r) == self.chromium().window_types,
    ;

    /// Whether every extension capability is absent.
    fn is_insig(&self) -> (r: bool)
        ensures
            r == self.chromium().is_insig(),
    ;
}

/// Setters for the capabilities that are Chromium's own. Each leaves the
/// others as they are.
pub trait ChromiumCapaSetter: ChromiumCapaGetter {

    fn set_args(&mut self, arg: Vec<&str>)
        ensures
            final(self).chromium() == (ChromiumExtView {
                args: Some(strs(arg@)),
                ..old(self).chromium()
            }),
    ;

    /// Adds one behind those that are there.
    fn add_args(&mut self, arg: &str)
        ensures
            final(self).chromium() == (ChromiumExtView {
                args: Some(
                    match old(self).chromium().args {
                        Some(l) => l.push(arg@),
                        None => seq![arg@],
                    },
                ),
                ..old(self).chromium()
            }),
    ;

    fn set_binary(&mut self, arg: &str)
        ensures
            final(self).chromium() == (ChromiumExtView {
                binary: Some(arg@),
                ..old(self).chromium()
            }),
    ;

    fn set_extensions(&mut self, arg: Vec<&str>)
        ensures
            final(self).chromium() == (ChromiumExtView {
                extensions: Some(strs(arg@)),
                ..old(self).chromium()
            }),
    ;

    /// Adds one behind those that are there.
    fn add_extensions(&mut self, arg: &str)
        ensures
            final(self).chromium() == (ChromiumExtView {
                extensions: Some(
                    match old(self).chromium().extensions {
                        Some(l) => l.push(arg@),
                        None => seq![arg@],
                    },
                ),
                ..old(self).chromium()
            }),
    ;

    /// Sets the preferences to the names and values of `arg`, of which a
    /// later one takes the place of an earlier one with its name.
    fn set_prefs(&mut self, arg: Vec<(&str, &str)>)
        ensures
            final(self).chromium() == (ChromiumExtView {
                prefs: Some(collected(pairs_view(arg@))),
                ..old(self).chromium()
            }),
    ;

    /// Puts one preference among those that are there.
    fn add_prefs(&mut self, key: &str, value: &str)
        ensures
            final(self).chromium() == (ChromiumExtView {
                prefs: Some(
                    inserted(
                        match old(self).chromium().prefs {
                            Some(m) => m,
                            None => Seq::empty(),
                        },
                        key@,
                        value@,
                    ),
                ),
                ..old(self).chromium()
            }),
    ;

    fn set_detach(&mut self, arg: bool)
        ensures
            final(self).chromium() == (ChromiumExtView {
                detach: Some(arg),
                ..old(self).chromium()
            }),
    ;

    fn set_debugger_address(&mut self, arg: &str)
        ensures
            final(self).chromium() == (ChromiumExtView {
                debugger_address: Some(arg@),
                ..old(self).chromium()
            }),
    ;

    fn set_debugger_address_take(&mut self, arg: String)
        ensures
            final(self).chromium() == (ChromiumExtView {
                debugger_address: Some(arg@),
                ..old(self).chromium()
            }),
    ;

    fn set_exclude_switches(&mut self, arg: Vec<&str>)
        ensures
            final(self).chromium() == (ChromiumExtView {
                exclude_switches: Some(strs(arg@)),
                ..old(self).chromium()
            }),
    ;

    /// Adds one behind those that are there.
    fn add_exclude_switches(&mut self, arg: &str)
        ensures
            final(self).chromium() == (ChromiumExtView {
                exclude_switches: Some(
                    match old(self).chromium().exclude_switches {
                        Some(l) => l.push(arg@),
                        None => seq![arg@],
                    },
                ),
                ..old(self).chromium()
            }),
    ;

    fn set_minidump_path(&mut self, arg: &str)
        ensures
            final(self).chromium() == (ChromiumExtView {
                minidump_path: Some(arg@),
                ..old(self).chromium()
            }),
    ;

    fn set_window_types(&mut self, arg: Vec<&str>)
        ensures
            final(self).chromium() == (ChromiumExtView {
                window_types: Some(strs(arg@)),
                ..old(self).chromium()
            }),
    ;

    /// Adds one behind those that are there.
    fn add_window_types(&mut self, arg: &str)
        ensures
            final(self).chromium() == (ChromiumExtView {
                window_types: Some(
                    match old(self).chromium().window_types {
                        Some(l) => l.push(arg@),
                        None => seq![arg@],
                    },
                ),
                ..old(self).chromium()
            }),
    ;
}

impl ChromiumCapaGetter for ChromiumCapa {
    open spec fn chromium(&self) -> ChromiumExtView {
        self.ext@
    }

    fn args(&self) -> (r: Option<Vec<&str>>) {
        match &self.ext.args {
            None => None,
            Some(v) => Some(borrowed_list(v)),
        }
    }

    fn binary(&self) -> (r: Option<&str>) {
        as_opt_str(&self.ext.binary)
    }

    fn extensions(&self) -> (r: Option<Vec<&str>>) {
        match &self.ext.extensions {
            None => None,
            Some(v) => Some(borrowed_list(v)),
        }
    }

    fn prefs(&self) -> (r: Option<Vec<(&str, &str)>>) {
        match &self.ext.prefs {
            None => None,
            Some(v) => Some(v.pairs()),
        }
    }

    fn detach(&self) -> (r: Option<bool>) {
        self.ext.detach
    }

    fn debugger_address(&self) -> (r: Option<&str>) {
        as_opt_str(&self.ext.debugger_address)
    }

    fn exclude_switches(&self) -> (r: Option<Vec<&str>>) {
        match &self.ext.exclude_switches {
            None => None,
            Some(v) => Some(borrowed_list(v)),
        }
    }

    fn minidump_path(&self) -> (r: Option<&str>) {
        as_opt_str(&self.ext.minidump_path)
    }

    fn window_types(&self) -> (r: Option<Vec<&str>>) {
        match &self.ext.window_types {
            None => None,
            Some(v) => Some(borrowed_list(v)),
        }
    }

    fn is_insig(&self) -> (r: bool) {
        self.ext.args.is_none() && self.ext.binary.is_none() && self.ext.extensions.is_none()
            && self.ext.prefs.is_none() && self.ext.detach.is_none()
            && self.ext.debugger_address.is_none() && self.ext.exclude_switches.is_none()
            && self.ext.minidump_path.is_none() && self.ext.window_types.is_none()
    }
}

impl ChromiumCapaSetter for ChromiumCapa {
    fn set_args(&mut self, arg: Vec<&str>)
        ensures
            final(self).w3c() == old(self).w3c(),
            final(self).alien == old(self).alien,
    {
        self.ext.args = Some(owned_list(&arg));
    }

    fn add_args(&mut self, arg: &str)
        ensures
            final(self).w3c() == old(self).w3c(),
            final(self).alien == old(self).alien,
    {
        let mut l = match self.ext.args.take() {
            Some(l) => l,
            None => Vec::new(),
        };
        let ghost before = texts(l@);
        l.push(owned(arg));
        assert(texts(l@) =~= before.push(arg@));
        assert(old(self).ext.args.is_none() ==> before.push(arg@) =~= seq![arg@]);
        self.ext.args = Some(l);
    }

    fn set_binary(&mut self, arg: &str)
        ensures
            final(self).w3c() == old(self).w3c(),
            final(self).alien == old(self).alien,
    {
        self.ext.binary = Some(owned(arg));
    }

    fn set_extensions(&mut self, arg: Vec<&str>)
        ensures
            final(self).w3c() == old(self).w3c(),
            final(self).alien == old(self).alien,
    {
        self.ext.extensions = Some(owned_list(&arg));
    }

    fn add_extensions(&mut self, arg: &str)
        ensures
            final(self).w3c() == old(self).w3c(),
            final(self).alien == old(self).alien,
    {
        let mut l = match self.ext.extensions.take() {
            Some(l) => l,
            None => Vec::new(),
        };
        let ghost before = texts(l@);
        l.push(owned(arg));
        assert(texts(l@) =~= before.push(arg@));
        assert(old(self).ext.extensions.is_none() ==> before.push(arg@) =~= seq![arg@]);
        self.ext.extensions = Some(l);
    }

    fn set_prefs(&mut self, arg: Vec<(&str, &str)>)
        ensures
            final(self).w3c() == old(self).w3c(),
            final(self).alien == old(self).alien,
    {
        self.ext.prefs = Some(VarValTypeMap::from_pairs(&arg));
    }

    fn add_prefs(&mut self, key: &str, value: &str)
        ensures
            final(self).w3c() == old(self).w3c(),
            final(self).alien == old(self).alien,
    {
        let mut m = match self.ext.prefs.take() {
            Some(m) => m,
            None => VarValTypeMap::new(),
        };
        m.insert(key, value);
        self.ext.prefs = Some(m);
    }

    fn set_detach(&mut self, arg: bool)
        ensures
            final(self).w3c() == old(self).w3c(),
            final(self).alien == old(self).alien,
    {
        self.ext.detach = Some(arg);
    }

    fn set_debugger_address(&mut self, arg: &str)
        ensures
            final(self).w3c() == old(self).w3c(),
            final(self).alien == old(self).alien,
    {
        self.ext.debugger_address = Some(owned(arg));
    }

    fn set_debugger_address_take(&mut self, arg: String)
        ensures
            final(self).w3c() == old(self).w3c(),
            final(self).alien == old(self).alien,
    {
        self.ext.debugger_address = Some(arg);
    }

    fn set_exclude_switches(&mut self, arg: Vec<&str>)
        ensures
            final(self).w3c() == old(self).w3c(),
            final(self).alien == old(self).alien,
    {
        self.ext.exclude_switches = Some(owned_list(&arg));
    }

    fn add_exclude_switches(&mut self, arg: &str)
        ensures
            final(self).w3c() == old(self).w3c(),
            final(self).alien == old(self).alien,
    {
        let mut l = match self.ext.exclude_switches.take() {
            Some(l) => l,
            None => Vec::new(),
        };
        let ghost before = texts(l@);
        l.push(owned(arg));
        assert(texts(l@) =~= before.push(arg@));
        assert(old(self).ext.exclude_switches.is_none() ==> before.push(arg@) =~= seq![arg@]);
        self.ext.exclude_switches = Some(l);
    }

    fn set_minidump_path(&mut self, arg: &str)
        ensures
            final(self).w3c() == old(self).w3c(),
            final(self).alien == old(self).alien,
    {
        self.ext.minidump_path = Some(owned(arg));
    }

    fn set_window_types(&mut self, arg: Vec<&str>)
        ensures
            final(self).w3c() == old(self).w3c(),
            final(self).alien == old(self).alien,
    {
        self.ext.window_types = Some(owned_list(&arg));
    }

    fn add_window_types(&mut self, arg: &str)
        ensures
            final(self).w3c() == old(self).w3c(),
            final(self).alien == old(self).alien,
    {
        let mut l = match self.ext.window_types.take() {
            Some(l) => l,
            None => Vec::new(),
        };
        let ghost before = texts(l@);
        l.push(owned(arg));
        assert(texts(l@) =~= before.push(arg@));
        assert(old(self).ext.window_types.is_none() ==> before.push(arg@) =~= seq![arg@]);
        self.ext.window_types = Some(l);
    }
}

/// What only ChromeDriver's answers hold, read and set through a record.
pub trait ChromiumSesAlnCap {
    /// The alien part that the value holds.
    spec fn alien_part(&self) -> ChromiumAlienView;

    fn chromedriver_version_as_alien(&self) -> (r: Option<&str>)
        ensures
            opt_text(r) == self.alien_part().chromedriver_version,
    ;

    fn user_data_dir_as_alien(&self) -> (r: Option<&str>)
        ensures
            opt_text(r) == self.alien_part().user_data_dir,
    ;

    fn network_connection_enabled_as_alien(&self) -> (r: Option<bool>)
        ensures
            r == self.alien_part().network_connection_enabled,
    ;

    fn webauthn_extension_cred_blob_as_alien(&self) -> (r: Option<bool>)
        ensures
            r == self.alien_part().webauthn_extension_cred_blob,
    ;

    fn webauthn_extension_large_blob_as_alien(&self) -> (r: Option<bool>)
        ensures
            r == self.alien_part().webauthn_extension_large_blob,
    ;

    /// A capability of later drivers, which no record holds so far.
    fn webauthn_extension_min_pin_length_as_alien(&self) -> (r: Option<bool>)
        ensures
            r.is_none(),
    ;

    /// A capability of later drivers, which no record holds so far.
    fn webauthn_extension_prf_as_alien(&self) -> (r: Option<bool>)
        ensures
            r.is_none(),
    ;

    fn webauthn_virtual_authenticators_as_alien(&self) -> (r: Option<bool>)
        ensures
            r == self.alien_part().webauthn_virtual_authenticators,
    ;

    fn set_chromedriver_version_as_alien(&mut self, arg: &str)
        ensures
            final(self).alien_part() == (ChromiumAlienView {
                chromedriver_version: Some(arg@),
                ..old(self).alien_part()
            }),
    ;

    fn set_chromedriver_version_take_as_alien(&mut self, arg: String)
        ensures
            final(self).alien_part() == (ChromiumAlienView {
                chromedriver_version: Some(arg@),
                ..old(self).alien_part()
            }),
    ;

    fn set_user_data_dir_as_alien(&mut self, arg: &str)
        ensures
            final(self).alien_part() == (ChromiumAlienView {
                user_data_dir: Some(arg@),
                ..old(self).alien_part()
            }),
    ;

    fn set_user_data_dir_take_as_alien(&mut self, arg: String)
        ensures
            final(self).alien_part() == (ChromiumAlienView {
                user_data_dir: Some(arg@),
                ..old(self).alien_part()
            }),
    ;

    fn set_network_connection_enabled_as_alien(&mut self, arg: bool)
        ensures
            final(self).alien_part() == (ChromiumAlienView {
                network_connection_enabled: Some(arg),
                ..old(self).alien_part()
            }),
    ;

    fn set_webauthn_extension_cred_blob_as_alien(&mut self, arg: bool)
        ensures
            final(self).alien_part() == (ChromiumAlienView {
                webauthn_extension_cred_blob: Some(arg),
                ..old(self).alien_part()
            }),
    ;

    fn set_webauthn_extension_large_blob_as_alien(&mut self, arg: bool)
        ensures
            final(self).alien_part() == (ChromiumAlienView {
                webauthn_extension_large_blob: Some(arg),
                ..old(self).alien_part()
            }),
    ;

    /// Sets a capability of later drivers, which no record holds so far.
    fn set_webauthn_extension_min_pin_length_as_alien(&mut self, arg: bool)
        ensures
            final(self).alien_part() == old(self).alien_part(),
    ;

    /// Sets a capability of later drivers, which no record holds so far.
    fn set_webauthn_extension_prf_as_alien(&mut self, arg: bool)
        ensures
            final(self).alien_part() == old(self).alien_part(),
    ;

    fn set_webauthn_virtual_authenticators_as_alien(&mut self, arg: bool)
        ensures
            final(self).alien_part() == (ChromiumAlienView {
                webauthn_virtual_authenticators: Some(arg),
                ..old(self).alien_part()
            }),
    ;
}

impl ChromiumSesAlnCap for ChromiumCapa {
    open spec fn alien_part(&self) -> ChromiumAlienView {
        self.alien@
    }

    fn chromedriver_version_as_alien(&self) -> (r: Option<&str>) {
        as_opt_str(&self.alien.chromedriver_version)
    }

    fn user_data_dir_as_alien(&self) -> (r: Option<&str>) {
        as_opt_str(&self.alien.user_data_dir)
    }

    fn network_connection_enabled_as_alien(&self) -> (r: Option<bool>) {
        self.alien.network_connection_enabled
    }

    fn webauthn_extension_cred_blob_as_alien(&self) -> (r: Option<bool>) {
        self.alien.webauthn_extension_cred_blob
    }

    fn webauthn_extension_large_blob_as_alien(&self) -> (r: Option<bool>) {
        self.alien.webauthn_extension_large_blob
    }

    fn webauthn_extension_min_pin_length_as_alien(&self) -> (r: Option<bool>) {
        None
    }

    fn webauthn_extension_prf_as_alien(&self) -> (r: Option<bool>) {
        None
    }

    fn webauthn_virtual_authenticators_as_alien(&self) -> (r: Option<bool>) {
        self.alien.webauthn_virtual_authenticators
    }

    fn set_chromedriver_version_as_alien(&mut self, arg: &str)
        ensures
            final(self).w3c() == old(self).w3c(),
            final(self).ext == old(self).ext,
    {
        self.alien.chromedriver_version = Some(owned(arg));
    }

    fn set_chromedriver_version_take_as_alien(&mut self, arg: String)
        ensures
            final(self).w3c() == old(self).w3c(),
            final(self).ext == old(self).ext,
    {
        self.alien.chromedriver_version = Some(arg);
    }

    fn set_user_data_dir_as_alien(&mut self, arg: &str)
        ensures
            final(self).w3c() == old(self).w3c(),
            final(self).ext == old(self).ext,
    {
        self.alien.user_data_dir = Some(owned(arg));
    }

    fn set_user_data_dir_take_as_alien(&mut self, arg: String)
        ensures
            final(self).w3c() == old(self).w3c(),
            final(self).ext == old(self).ext,
    {
        self.alien.user_data_dir = Some(arg);
    }

    fn set_network_connection_enabled_as_alien(&mut self, arg: bool)
        ensures
            final(self).w3c() == old(self).w3c(),
            final(self).ext == old(self).ext,
    {
        self.alien.network_connection_enabled = Some(arg);
    }

    fn set_webauthn_extension_cred_blob_as_alien(&mut self, arg: bool)
        ensures
            final(self).w3c() == old(self).w3c(),
            final(self).ext == old(self).ext,
    {
        self.alien.webauthn_extension_cred_blob = Some(arg);
    }

    fn set_webauthn_extension_large_blob_as_alien(&mut self, arg: bool)
        ensures
            final(self).w3c() == old(self).w3c(),
            final(self).ext == old(self).ext,
    {
        self.alien.webauthn_extension_large_blob = Some(arg);
    }

    fn set_webauthn_extension_min_pin_length_as_alien(&mut self, arg: bool)
        ensures
            *final(self) == *old(self),
    {
    }

    fn set_webauthn_extension_prf_as_alien(&mut self, arg: bool)
        ensures
            *final(self) == *old(self),
    {
    }

    fn set_webauthn_virtual_authenticators_as_alien(&mut self, arg: bool)
        ensures
            final(self).w3c() == old(self).w3c(),
            final(self).ext == old(self).ext,
    {
        self.alien.webauthn_virtual_authenticators = Some(arg);
    }
}

impl ChromiumCapa {
    /// A record with the standard capabilities of `other`, and none that
    /// are Chromium's own.
    pub fn from_other_as_w3c(other: &impl W3cCapaGetter) -> (r: Self)
        ensures
            r.w3c() == other.w3c(),
            r.chromium() == ChromiumExtView::empty(),
            r.alien_part() == ChromiumAlienView::empty(),
    {
        let mut newme = Self::default();
        copy_w3c(&mut newme, other);
        newme
    }

    /// A record with the capabilities of `other`, the standard ones and
    /// Chromium's own, the preferences put in the order of their names.
    pub fn from_other(other: &(impl W3cCapaGetter + ChromiumCapaGetter)) -> (r: Self)
        ensures
            r.w3c() == other.w3c(),
            r.chromium() == other.chromium().ordered(),
            r.alien_part() == ChromiumAlienView::empty(),
    {
        let mut newme = Self::default();
        copy_w3c(&mut newme, other);
        if let Some(v) = other.binary() {
            newme.set_binary(v);
        }
        if let Some(v) = other.args() {
            newme.set_args(v);
        }
        if let Some(v) = other.extensions() {
            newme.set_extensions(v);
        }
        if let Some(v) = other.prefs() {
            newme.set_prefs(v);
        }
        if let Some(v) = other.detach() {
            newme.set_detach(v);
        }
        if let Some(v) = other.debugger_address() {
            newme.set_debugger_address(v);
        }
        if let Some(v) = other.exclude_switches() {
            newme.set_exclude_switches(v);
        }
        if let Some(v) = other.minidump_path() {
            newme.set_minidump_path(v);
        }
        if let Some(v) = other.window_types() {
            newme.set_window_types(v);
        }
        newme
    }

    /// Whether the record conflicts with `other`: in the standard
    /// capabilities, or in that both specify a binary or arguments.
    pub fn is_conflict_with(&self, other: &(impl W3cCapaGetter + ChromiumCapaGetter)) -> (r: bool)
        ensures
            r == conflict_chromium(self.w3c(), self.chromium(), other.w3c(), other.chromium()),
    {
        conflict_getters(self, other) || (self.binary().is_some() && other.binary().is_some()) || (
        self.args().is_some() && other.args().is_some())
    }

    /// Whether the record conflicts with `other` in the standard
    /// capabilities.
    pub fn is_conflict_with_as_w3c(&self, other: &impl W3cCapaGetter) -> (r: bool)
        ensures
            r == conflict_w3c(self.w3c(), other.w3c()),
    {
        conflict_getters(self, other)
    }
}

// ---------------------------------------------------------------- requests --

/// The alternatives without those that conflict with what must match, in
/// the standard capabilities or in Chromium's own.
pub open spec fn purged_chromium(first: Seq<ChromiumCapa>, aw: W3cView, af: ChromiumExtView) -> Seq<
    ChromiumCapa,
>
    decreases first.len(),
{
    if first.len() == 0 {
        Seq::empty()
    } else if conflict_chromium(aw, af, first.first().w3c(), first.first().chromium()) {
        purged_chromium(first.drop_first(), aw, af)
    } else {
        seq![first.first()] + purged_chromium(first.drop_first(), aw, af)
    }
}

fn purge_chromium(first: &mut Vec<ChromiumCapa>, always: &ChromiumCapa)
    ensures
        final(first)@ == purged_chromium(old(first)@, always.w3c(), always.chromium()),
{
    let ghost before = first@;
    let ghost goal = purged_chromium(before, always.w3c(), always.chromium());
    let ghost mut k: int = 0;
    let mut i: usize = 0;
    proof {
        assert(before.skip(0) =~= before);
        assert(first@.take(0) + goal =~= goal);
    }
    while i < first.len()
        invariant
            0 <= i <= first@.len(),
            0 <= k <= before.len(),
            first@.len() - i == before.len() - k,
            first@.skip(i as int) == before.skip(k),
            goal == first@.take(i as int) + purged_chromium(
                before.skip(k),
                always.w3c(),
                always.chromium(),
            ),
        decreases first@.len() - i,
    {
        proof {
            assert(before.skip(k).first() == first@[i as int]);
            assert(before.skip(k).drop_first() =~= before.skip(k + 1));
        }
        if always.is_conflict_with(&first[i]) {
            let ghost prev = first@;
            first.remove(i);
            proof {
                assert(first@.take(i as int) =~= prev.take(i as int));
                assert(first@.skip(i as int) =~= prev.skip(i + 1));
                assert(prev.skip(i + 1) =~= prev.skip(i as int).drop_first());
            }
        } else {
            proof {
                assert(first@.take(i + 1) =~= first@.take(i as int) + seq![first@[i as int]]);
                assert(first@.skip(i + 1) =~= first@.skip(i as int).drop_first());
                assert(first@.take(i as int) + (seq![first@[i as int]] + purged_chromium(
                    before.skip(k + 1),
                    always.w3c(),
                    always.chromium(),
                )) =~= first@.take(i + 1) + purged_chromium(
                    before.skip(k + 1),
                    always.w3c(),
                    always.chromium(),
                ));
            }
            i = i + 1;
        }
        proof {
            k = k + 1;
        }
    }
    proof {
        assert(before.skip(k) =~= Seq::<ChromiumCapa>::empty());
        assert(first@.take(i as int) =~= first@);
        assert(first@ + Seq::<ChromiumCapa>::empty() =~= first@);
    }
}

impl W3cCapRequSetter for ChromCapRequ {
    type Capa = ChromiumCapa;

    open spec fn always(&self) -> ChromiumCapa {
        self.always_match
    }

    open spec fn first(&self) -> Seq<ChromiumCapa> {
        self.first_match@
    }

    fn mandate_as_w3c<G: W3cCapaGetter>(&mut self, other: &G)
        ensures
            final(self).always_match.chromium() == ChromiumExtView::empty(),
    {
        self.always_match = ChromiumCapa::from_other_as_w3c(other);
        purge_as_w3c(&mut self.first_match, other);
    }

    fn allow_as_w3c<G: W3cCapaGetter>(&mut self, other: &G) -> (ret: &mut Self)
        ensures
            !conflict_w3c(old(self).always_match.w3c(), other.w3c()) ==> ret.first_match@.last().chromium()
                == ChromiumExtView::empty(),
    {
        if !self.always_match.is_conflict_with_as_w3c(other) {
            let newone = ChromiumCapa::from_other_as_w3c(other);
            let ghost before = self.first_match@;
            self.first_match.push(newone);
            assert(self.first_match@.drop_last() =~= before);
        }
        self
    }
}

/// Setters for a request of the capabilities of a Chromium session.
pub trait ChromCapRequSetter: Sized {
    /// The capabilities that must match.
    spec fn chrom_always(&self) -> ChromiumCapa;

    /// The capabilities of which one set must match, in order.
    spec fn chrom_first(&self) -> Seq<ChromiumCapa>;

    /// Makes the capabilities of `other` those that must match, and
    /// removes every alternative that conflicts with them.
    fn mandate<G: ChromiumCapaGetter + W3cCapaGetter>(&mut self, other: &G)
        ensures
            final(self).chrom_always().w3c() == other.w3c(),
            final(self).chrom_always().chromium() == other.chromium().ordered(),
            final(self).chrom_first() == purged_chromium(
                old(self).chrom_first(),
                other.w3c(),
                other.chromium(),
            ),
    ;

    /// Adds the capabilities of `other` to the alternatives, unless they
    /// conflict with those that must match.
    fn allow<G: ChromiumCapaGetter + W3cCapaGetter>(&mut self, other: &G) -> (ret: &mut Self)
        ensures
            ret.chrom_always() == old(self).chrom_always(),
            conflict_chromium(
                old(self).chrom_always().w3c(),
                old(self).chrom_always().chromium(),
                other.w3c(),
                other.chromium(),
            ) ==> ret.chrom_first() == old(self).chrom_first(),
            !conflict_chromium(
                old(self).chrom_always().w3c(),
                old(self).chrom_always().chromium(),
                other.w3c(),
                other.chromium(),
            ) ==> ret.chrom_first().len() == old(self).chrom_first().len() + 1
                && ret.chrom_first().drop_last() == old(self).chrom_first()
                && ret.chrom_first().last().w3c() == other.w3c()
                && ret.chrom_first().last().chromium() == other.chromium().ordered(),
            *final(self) == *final(ret),
    ;
}

proof fn lemma_purged_chromium_same(first: Seq<ChromiumCapa>, aw: W3cView, a: ChromiumExtView, b: ChromiumExtView)
    requires
        a.binary.is_some() == b.binary.is_some(),
        a.args.is_some() == b.args.is_some(),
    ensures
        purged_chromium(first, aw, a) == purged_chromium(first, aw, b),
    decreases first.len(),
{
    if first.len() > 0 {
        lemma_purged_chromium_same(first.drop_first(), aw, a, b);
    }
}

impl ChromCapRequSetter for ChromCapRequ {
    open spec fn chrom_always(&self) -> ChromiumCapa {
        self.always_match
    }

    open spec fn chrom_first(&self) -> Seq<ChromiumCapa> {
        self.first_match@
    }

    fn mandate<G: ChromiumCapaGetter + W3cCapaGetter>(&mut self, other: &G) {
        self.always_match = ChromiumCapa::from_other(other);
        proof {
            lemma_purged_chromium_same(
                self.first_match@,
                other.w3c(),
                other.chromium().ordered(),
                other.chromium(),
            );
        }
        purge_chromium(&mut self.first_match, &self.always_match);
    }

    fn allow<G: ChromiumCapaGetter + W3cCapaGetter>(&mut self, other: &G) -> (ret: &mut Self) {
        if !self.always_match.is_conflict_with(other) {
            let newone = ChromiumCapa::from_other(other);
            let ghost before = self.first_match@;
            self.first_match.push(newone);
            assert(self.first_match@.drop_last() =~= before);
        }
        self
    }
}

// ----------------------------------------------------- capabilities as JSON --

/// The members that the extension capabilities of Chromium are written
/// with: each that is specified, under its wire key.
pub open spec fn chromium_ext_members(f: ChromiumExtView) -> Members {
    opt_entry("args"@, opt_texts_json(f.args)) + opt_entry("binary"@, opt_str_json(f.binary))
        + opt_entry("extensions"@, opt_texts_json(f.extensions)) + opt_entry(
        "prefs"@,
        match f.prefs {
            Some(m) => Some(JsonView::Object(prefs_members(m))),
            None => None,
        },
    ) + opt_entry("detach"@, opt_bool_json(f.detach)) + opt_entry(
        "debuggerAddress"@,
        opt_str_json(f.debugger_address),
    ) + opt_entry("excludeSwitches"@, opt_texts_json(f.exclude_switches)) + opt_entry(
        "minidumpPath"@,
        opt_str_json(f.minidump_path),
    ) + opt_entry("windowTypes"@, opt_texts_json(f.window_types))
}

/// The members that the capabilities of a Chromium session are written
/// with in a request: the standard ones that a request carries, and the
/// extension capabilities under `goog:chromeOptions` where any is
/// specified.
pub open spec fn chromium_members(w: W3cView, f: ChromiumExtView) -> Members {
    w3c_lead(w) + timeouts_entry(w) + proxy_entry(w) + bidi_entry(w) + opt_entry(
        "goog:chromeOptions"@,
        if f.is_insig() {
            None
        } else {
            Some(JsonView::Object(chromium_ext_members(f)))
        },
    )
}

/// The capabilities of a Chromium session as they are written in a request.
pub open spec fn chromium_json(c: ChromiumCapa) -> JsonView {
    JsonView::Object(chromium_members(c.w3c(), c.chromium()))
}

/// A request for the capabilities of a Chromium session as it is written.
pub open spec fn chrom_request_json(always: ChromiumCapa, first: Seq<ChromiumCapa>) -> JsonView {
    JsonView::Object(
        entry("alwaysMatch"@, chromium_json(always)) + entry(
            "firstMatch"@,
            JsonView::Array(Seq::new(first.len(), |i: int| chromium_json(first[i]))),
        ),
    )
}

impl ChromiumSesExtCap {
    /// The extension capabilities as a JSON object.
    pub fn to_json(&self) -> (r: Json)
        ensures
            r@ == JsonView::Object(chromium_ext_members(self@)),
    {
        let mut m: Entries = Vec::new();
        assert(members_view(m@) =~= Seq::<(Seq<char>, JsonView)>::empty());
        put_opt(&mut m, "args", json_opt_texts(&self.args));
        put_opt(&mut m, "binary", json_opt_str(as_opt_str(&self.binary)));
        put_opt(&mut m, "extensions", json_opt_texts(&self.extensions));
        put_opt(
            &mut m,
            "prefs",
            match &self.prefs {
                Some(p) => Some(p.to_json()),
                None => None,
            },
        );
        put_opt(&mut m, "detach", json_opt_bool(self.detach));
        put_opt(&mut m, "debuggerAddress", json_opt_str(as_opt_str(&self.debugger_address)));
        put_opt(&mut m, "excludeSwitches", json_opt_texts(&self.exclude_switches));
        put_opt(&mut m, "minidumpPath", json_opt_str(as_opt_str(&self.minidump_path)));
        put_opt(&mut m, "windowTypes", json_opt_texts(&self.window_types));
        assert(members_view(m@) =~= chromium_ext_members(self@));
        Json::Object(m)
    }

    /// Reads the extension capabilities from the members of an object.
    pub fn from_json(o: &Entries) -> (r: Result<ChromiumSesExtCap, DeError>)
        ensures
            parsed_chromium_ext(r) == chromium_ext_parsed(members_view(o@)),
    {
        let args = match read_texts(o, "args") {
            Ok(v) => v,
            Err(e) => {
                return Err(e);
            },
        };
        let binary = match read_text(o, "binary") {
            Ok(v) => v,
            Err(e) => {
                return Err(e);
            },
        };
        let extensions = match read_texts(o, "extensions") {
            Ok(v) => v,
            Err(e) => {
                return Err(e);
            },
        };
        let detach = match read_bool(o, "detach") {
            Ok(v) => v,
            Err(e) => {
                return Err(e);
            },
        };
        let debugger_address = match read_text(o, "debuggerAddress") {
            Ok(v) => v,
            Err(e) => {
                return Err(e);
            },
        };
        let exclude_switches = match read_texts(o, "excludeSwitches") {
            Ok(v) => v,
            Err(e) => {
                return Err(e);
            },
        };
        let minidump_path = match read_text(o, "minidumpPath") {
            Ok(v) => v,
            Err(e) => {
                return Err(e);
            },
        };
        let window_types = match read_texts(o, "windowTypes") {
            Ok(v) => v,
            Err(e) => {
                return Err(e);
            },
        };
        Ok(
            ChromiumSesExtCap {
                args,
                binary: own_opt(binary),
                extensions,
                prefs: None,
                detach,
                debugger_address: own_opt(debugger_address),
                exclude_switches,
                minidump_path: own_opt(minidump_path),
                window_types,
            },
        )
    }
}

fn own_opt(t: Option<&str>) -> (r: Option<String>)
    ensures
        opt_string(r) == opt_text(t),
{
    match t {
        Some(s) => Some(owned(s)),
        None => None,
    }
}

impl ChromiumCapa {
    /// The capabilities as the JSON object that a request carries.
    pub fn to_json(&self) -> (r: Json)
        ensures
            r@ == chromium_json(*self),
    {
        let mut m: Entries = Vec::new();
        assert(members_view(m@) =~= Seq::<(Seq<char>, JsonView)>::empty());
        self.put_lead(&mut m);
        self.put_timeouts(&mut m);
        self.put_proxy(&mut m);
        self.put_bidi(&mut m);
        put_opt(
            &mut m,
            "goog:chromeOptions",
            if self.is_insig() {
                None
            } else {
                Some(self.ext.to_json())
            },
        );
        assert(members_view(m@) =~= chromium_members(self.w3c(), self.chromium()));
        Json::Object(m)
    }
}

impl ChromCapRequ {
    /// The request as the JSON object that is sent.
    pub fn to_json(&self) -> (r: Json)
        ensures
            r@ == chrom_request_json(self.always_match, self.first_match@),
    {
        let mut list: Vec<Json> = Vec::new();
        let mut i: usize = 0;
        while i < self.first_match.len()
            invariant
                0 <= i <= self.first_match@.len(),
                list@.len() == i,
                forall|k: int| 0 <= k < i ==> list@[k]@ == chromium_json(self.first_match@[k]),
            decreases self.first_match@.len() - i,
        {
            list.push(self.first_match[i].to_json());
            i = i + 1;
        }
        let arr = Json::Array(list);
        assert(arr@ == JsonView::Array(
            Seq::new(self.first_match@.len(), |i: int| chromium_json(self.first_match@[i])),
        )) by {
            assert(crate::json::items_view(list@) =~= Seq::new(
                self.first_match@.len(),
                |i: int| chromium_json(self.first_match@[i]),
            ));
        }
        let mut m: Entries = Vec::new();
        assert(members_view(m@) =~= Seq::<(Seq<char>, JsonView)>::empty());
        put(&mut m, "alwaysMatch", self.always_match.to_json());
        put(&mut m, "firstMatch", arr);
        assert(members_view(m@) =~= entry("alwaysMatch"@, chromium_json(self.always_match))
            + entry(
            "firstMatch"@,
            JsonView::Array(
                Seq::new(self.first_match@.len(), |i: int| chromium_json(self.first_match@[i])),
            ),
        ));
        Json::Object(m)
    }
}

// -------------------------------------------------- capabilities of answers --

/// The extension capabilities that the members of an object denote. Each
/// may be missing; preferences are not read.
pub open spec fn chromium_ext_parsed(m: Members) -> Result<ChromiumExtView, DeError> {
    let args = texts_field(m, "args"@);
    let binary = text_field(m, "binary"@);
    let extensions = texts_field(m, "extensions"@);
    let detach = bool_field(m, "detach"@);
    let debugger_address = text_field(m, "debuggerAddress"@);
    let exclude_switches = texts_field(m, "excludeSwitches"@);
    let minidump_path = text_field(m, "minidumpPath"@);
    let window_types = texts_field(m, "windowTypes"@);
    if args is Err {
        Err(args->Err_0)
    } else if binary is Err {
        Err(binary->Err_0)
    } else if extensions is Err {
        Err(extensions->Err_0)
    } else if detach is Err {
        Err(detach->Err_0)
    } else if debugger_address is Err {
        Err(debugger_address->Err_0)
    } else if exclude_switches is Err {
        Err(exclude_switches->Err_0)
    } else if minidump_path is Err {
        Err(minidump_path->Err_0)
    } else if window_types is Err {
        Err(window_types->Err_0)
    } else {
        Ok(
            ChromiumExtView {
                args: args->Ok_0,
                binary: binary->Ok_0,
                extensions: extensions->Ok_0,
                prefs: None,
                detach: detach->Ok_0,
                debugger_address: debugger_address->Ok_0,
                exclude_switches: exclude_switches->Ok_0,
                minidump_path: minidump_path->Ok_0,
                window_types: window_types->Ok_0,
            },
        )
    }
}

/// Parsed extension capabilities as what they hold.
pub open spec fn parsed_chromium_ext(r: Result<ChromiumSesExtCap, DeError>) -> Result<
    ChromiumExtView,
    DeError,
> {
    match r {
        Ok(c) => Ok(c@),
        Err(e) => Err(e),
    }
}

/// The version of the driver and the directory of the user's data, which
/// stand in the object under `chrome`; all three must be there.
pub open spec fn chrome_parsed(m: Members) -> Result<(Seq<char>, Seq<char>), DeError> {
    match required(object_field(m, "chrome"@)) {
        Err(e) => Err(e),
        Ok(c) => {
            let version = required(text_field(c, "chromedriverVersion"@));
            let dir = required(text_field(c, "userDataDir"@));
            if version is Err {
                Err(version->Err_0)
            } else if dir is Err {
                Err(dir->Err_0)
            } else {
                Ok((version->Ok_0, dir->Ok_0))
            }
        },
    }
}

/// The extension capabilities under `goog:chromeOptions`, which must be
/// there.
pub open spec fn options_parsed(m: Members) -> Result<ChromiumExtView, DeError> {
    match required(object_field(m, "goog:chromeOptions"@)) {
        Err(e) => Err(e),
        Ok(o) => chromium_ext_parsed(o),
    }
}

/// The capabilities that the members of ChromeDriver's answer denote.
///
/// The standard capabilities come first, the proxy record among them.
/// Then come what stands under `chrome`, the extension capabilities, and
/// four bools that only answers hold; all of them must be there. Members
/// under unknown keys are passed over.
pub open spec fn chromium_parsed(m: Members) -> Result<
    (W3cView, ChromiumExtView, ChromiumAlienView),
    DeError,
> {
    let std = w3c_parsed(m, true);
    let chrome = chrome_parsed(m);
    let options = options_parsed(m);
    let network = required(bool_field(m, "networkConnectionEnabled"@));
    let cred = required(bool_field(m, "webauthn:extension:credBlob"@));
    let large = required(bool_field(m, "webauthn:extension:largeBlob"@));
    let authenticators = required(bool_field(m, "webauthn:virtualAuthenticators"@));
    if std is Err {
        Err(std->Err_0)
    } else if chrome is Err {
        Err(chrome->Err_0)
    } else if options is Err {
        Err(options->Err_0)
    } else if network is Err {
        Err(network->Err_0)
    } else if cred is Err {
        Err(cred->Err_0)
    } else if large is Err {
        Err(large->Err_0)
    } else if authenticators is Err {
        Err(authenticators->Err_0)
    } else {
        Ok(
            (
                std->Ok_0,
                options->Ok_0,
                ChromiumAlienView {
                    chromedriver_version: Some(chrome->Ok_0.0),
                    user_data_dir: Some(chrome->Ok_0.1),
                    network_connection_enabled: Some(network->Ok_0),
                    webauthn_extension_cred_blob: Some(cred->Ok_0),
                    webauthn_extension_large_blob: Some(large->Ok_0),
                    webauthn_virtual_authenticators: Some(authenticators->Ok_0),
                },
            ),
        )
    }
}

/// What ChromeDriver's answer to the creation of a session denotes: the
/// id of the session and the capabilities that were agreed on.
pub open spec fn chrom_session_parsed(j: JsonView) -> Result<
    (Seq<char>, W3cView, ChromiumExtView, ChromiumAlienView),
    DeError,
> {
    match j {
        JsonView::Object(top) => match session_parts(top) {
            Err(e) => Err(e),
            Ok(parts) => match chromium_parsed(parts.1) {
                Err(e) => Err(e),
                Ok(c) => Ok((parts.0, c.0, c.1, c.2)),
            },
        },
        _ => Err(DeError::Mismatch),
    }
}

/// Parsed capabilities as what they hold.
pub open spec fn parsed_chromium(r: Result<ChromiumCapa, DeError>) -> Result<
    (W3cView, ChromiumExtView, ChromiumAlienView),
    DeError,
> {
    match r {
        Ok(c) => Ok((c.w3c(), c.chromium(), c.alien_part())),
        Err(e) => Err(e),
    }
}

/// A parsed session result as what it holds.
pub open spec fn parsed_chrom_session(r: Result<ChromSessResult, DeError>) -> Result<
    (Seq<char>, W3cView, ChromiumExtView, ChromiumAlienView),
    DeError,
> {
    match r {
        Ok(s) => Ok(
            (
                s.value.session_id@,
                s.value.capabilities.w3c(),
                s.value.capabilities.chromium(),
                s.value.capabilities.alien_part(),
            ),
        ),
        Err(e) => Err(e),
    }
}

impl ChromiumCapa {
    /// Reads the capabilities from the members of ChromeDriver's answer.
    pub fn from_json(o: &Entries) -> (r: Result<ChromiumCapa, DeError>)
        ensures
            parsed_chromium(r) == chromium_parsed(members_view(o@)),
    {
        let std = match read_w3c(o, true) {
            Ok(v) => v,
            Err(e) => {
                return Err(e);
            },
        };
        let chrome = match need(read_object(o, "chrome")) {
            Ok(v) => v,
            Err(e) => {
                return Err(e);
            },
        };
        let version = match need(read_text(chrome, "chromedriverVersion")) {
            Ok(v) => v,
            Err(e) => {
                return Err(e);
            },
        };
        let dir = match need(read_text(chrome, "userDataDir")) {
            Ok(v) => v,
            Err(e) => {
                return Err(e);
            },
        };
        let options = match need(read_object(o, "goog:chromeOptions")) {
            Ok(v) => v,
            Err(e) => {
                return Err(e);
            },
        };
        let ext = match ChromiumSesExtCap::from_json(options) {
            Ok(v) => v,
            Err(e) => {
                return Err(e);
            },
        };
        let network = match need(read_bool(o, "networkConnectionEnabled")) {
            Ok(v) => v,
            Err(e) => {
                return Err(e);
            },
        };
        let cred = match need(read_bool(o, "webauthn:extension:credBlob")) {
            Ok(v) => v,
            Err(e) => {
                return Err(e);
            },
        };
        let large = match need(read_bool(o, "webauthn:extension:largeBlob")) {
            Ok(v) => v,
            Err(e) => {
                return Err(e);
            },
        };
        let authenticators = match need(read_bool(o, "webauthn:virtualAuthenticators")) {
            Ok(v) => v,
            Err(e) => {
                return Err(e);
            },
        };
        let alien = AlienPart {
            chromedriver_version: Some(owned(version)),
            user_data_dir: Some(owned(dir)),
            network_connection_enabled: Some(network),
            webauthn_extension_cred_blob: Some(cred),
            webauthn_extension_large_blob: Some(large),
            webauthn_virtual_authenticators: Some(authenticators),
        };
        Ok(CommCapa::with_parts(std, ext, ChromiumSesAddCap {  }, alien))
    }
}

impl ChromSessResult {
    /// Reads the result of creating a session from ChromeDriver's answer.
    pub fn from_json(j: &Json) -> (r: Result<ChromSessResult, DeError>)
        ensures
            parsed_chrom_session(r) == chrom_session_parsed(j@),
    {
        let top = match j.members() {
            Ok(m) => m,
            Err(e) => {
                return Err(e);
            },
        };
        let (sid, caps) = match read_session_parts(top) {
            Ok(p) => p,
            Err(e) => {
                return Err(e);
            },
        };
        match ChromiumCapa::from_json(caps) {
            Ok(c) => Ok(
                CommSessResult {
                    value: CommSessResultVal { session_id: owned(sid), capabilities: c },
                },
            ),
            Err(e) => Err(e),
        }
    }

    /// Reads the result of creating a session from the body of
    /// ChromeDriver's answer.
    ///
    /// A key that the text repeats is not refused: the later of its values
    /// is read. The reader that starts from a value refuses a repeated key.
    pub fn from_bytes(body: &[u8]) -> (r: Result<ChromSessResult, DeError>)
        ensures
            parsed_chrom_session(r) == match json_parsed(body@) {
                Some(j) => chrom_session_parsed(j),
                None => Err(DeError::Syntax),
            },
    {
        match Json::parse(body) {
            Ok(j) => Self::from_json(&j),
            Err(e) => Err(e),
        }
    }
}

} // verus!
