//! The records Domainest keeps: projects and the application state file.
use vstd::prelude::*;

use crate::text::{clone_strings, texts};

verus! {

/// Whether a project's dev server is running.
#[derive(Clone, Copy, Debug, PartialEq, Eq, Structural)]
pub enum ProjectStatus {
    Running,
    Stopped,
}

impl Default for ProjectStatus {
    /// A project starts out stopped.
    fn default() -> (s: Self)
        ensures
            s == ProjectStatus::Stopped,
    {
        ProjectStatus::Stopped
    }
}

/// A registered project. `id` holds the 128-bit value of the project's UUID.
#[derive(Debug)]
pub struct Project {
    pub id: u128,
    pub name: String,
    pub path: String,
    pub domain: String,
    pub port: u16,
    pub ssl: bool,
    pub status: ProjectStatus,
    pub command: String,
    pub args: Vec<String>,
    pub pid: Option<u32>,
}

/// The mathematical value of a [`Project`].
pub struct ProjectView {
    pub id: u128,
    pub name: Seq<char>,
    pub path: Seq<char>,
    pub domain: Seq<char>,
    pub port: u16,
    pub ssl: bool,
    pub status: ProjectStatus,
    pub command: Seq<char>,
    pub args: Seq<Seq<char>>,
    pub pid: Option<u32>,
}

impl View for Project {
    type V = ProjectView;

    open spec fn view(&self) -> ProjectView {
        ProjectView {
            id: self.id,
            name: self.name@,
            path: self.path@,
            domain: self.domain@,
            port: self.port,
            ssl: self.ssl,
            status: self.status,
            command: self.command@,
            args: texts(self.args@),
            pid: self.pid,
        }
    }
}

/// The views of a sequence of projects.
pub open spec fn project_views(ps: Seq<Project>) -> Seq<ProjectView> {
    Seq::new(ps.len(), |i: int| ps[i]@)
}

impl Project {
    /// A field-by-field copy.
    pub fn duplicate(&self) -> (r: Project)
        ensures
            r@ == self@,
    {
        let args = clone_strings(&self.args);
        Project {
            id: self.id,
            name: self.name.clone(),
            path: self.path.clone(),
            domain: self.domain.clone(),
            port: self.port,
            ssl: self.ssl,
            status: self.status,
            command: self.command.clone(),
            args,
            pid: self.pid,
        }
    }
}

/// SSL is on unless a project says otherwise.
pub fn default_ssl() -> (b: bool)
    ensures
        b,
{
    true
}

/// The dev command used when a project names none.
pub fn default_command() -> (s: String)
    ensures
        s@ == "pnpm"@,
{
    "pnpm".to_string()
}

/// The dev command arguments used when a project names none.
pub fn default_args() -> (v: Vec<String>)
    ensures
        texts(v@) == seq!["dev"@],
{
    let mut v: Vec<String> = Vec::new();
    v.push("dev".to_string());
    assert(texts(v@) =~= seq!["dev"@]);
    v
}

/// The DNS zone used when the state file names none.
pub fn default_domain_suffix() -> (s: String)
    ensures
        s@ == "test"@,
{
    "test".to_string()
}

/// The persisted application state.
#[derive(Debug)]
pub struct AppStateFile {
    pub mkcert_installed: bool,
    pub resolver_installed_macos: bool,
    pub domain_suffix: String,
}

impl Default for AppStateFile {
    /// The state before anything was recorded: nothing installed, no zone.
    fn default() -> (s: Self)
        ensures
            !s.mkcert_installed,
            !s.resolver_installed_macos,
            s.domain_suffix@ == Seq::<char>::empty(),
    {
        AppStateFile {
            mkcert_installed: false,
            resolver_installed_macos: false,
            domain_suffix: String::new(),
        }
    }
}

} // verus!
