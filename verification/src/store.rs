//! Where the projects list and the application state are kept, and the
//! helper services that act on the system (their decisions only).
use vstd::prelude::*;

use crate::models::AppStateFile;
use crate::paths::{
    app_state_path, projects_json_path, state_file_text, tmp_path_for, tmp_path_text,
    with_extension, with_extension_text,
};
use crate::text::chars_of;

verus! {

/// The projects file (`projects.json`).
pub struct Store {
    path: String,
}

impl Store {
    /// The store of the user whose home directory is `home`.
    pub fn new(home: &str) -> (s: Store)
        ensures
            s.path_text() == state_file_text(home@, "projects.json"@),
    {
        Store { path: projects_json_path(home) }
    }

    /// A store kept at `path`.
    pub fn from_path(path: String) -> (s: Store)
        ensures
            s.path_text() == path@,
    {
        Store { path }
    }

    pub closed spec fn path_text(&self) -> Seq<char> {
        self.path@
    }

    /// The file the projects are kept in.
    pub fn path(&self) -> (p: &str)
        ensures
            p@ == self.path_text(),
    {
        self.path.as_str()
    }

    /// The file written first and then renamed over the projects file.
    pub fn tmp_path(&self) -> (p: String)
        ensures
            p@ == tmp_path_text(self.path_text()),
    {
        tmp_path_for(self.path.as_str())
    }
}

/// The application state file (`state.json`).
pub struct StateStore {
    path: String,
}

impl StateStore {
    /// The state store of the user whose home directory is `home`.
    pub fn new(home: &str) -> (s: StateStore)
        ensures
            s.path_text() == state_file_text(home@, "state.json"@),
    {
        StateStore { path: app_state_path(home) }
    }

    /// A state store kept at `path`.
    pub fn from_path(path: String) -> (s: StateStore)
        ensures
            s.path_text() == path@,
    {
        StateStore { path }
    }

    pub closed spec fn path_text(&self) -> Seq<char> {
        self.path@
    }

    /// The file the state is kept in.
    pub fn path(&self) -> (p: &str)
        ensures
            p@ == self.path_text(),
    {
        self.path.as_str()
    }

    /// The file written first and then renamed over the state file: the
    /// path with its extension set to `json.tmp`.
    pub fn tmp_path(&self) -> (p: String)
        ensures
            p@ == with_extension_text(self.path_text(), "json.tmp"@),
    {
        with_extension(self.path.as_str(), &chars_of("json.tmp"))
    }
}

/// The dnsmasq side of system DNS setup.
pub struct DnsmasqManager;

/// The mkcert side of certificate setup.
pub struct MkcertManager;

impl MkcertManager {
    /// Whether mkcert's local certificate authority still has to be
    /// installed.
    pub fn needs_local_ca(state: &AppStateFile) -> (r: bool)
        ensures
            r == !state.mkcert_installed,
    {
        !state.mkcert_installed
    }

    /// The state once the local certificate authority is installed.
    pub fn record_local_ca(state: &mut AppStateFile)
        ensures
            final(state).mkcert_installed,
            final(state).resolver_installed_macos == old(state).resolver_installed_macos,
            final(state).domain_suffix@ == old(state).domain_suffix@,
    {
        state.mkcert_installed = true;
    }
}

} // verus!
