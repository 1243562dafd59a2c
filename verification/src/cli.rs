//! The command-line interface: its commands, and the text it prints.
use vstd::prelude::*;

use crate::error::{AppError, ErrorView};
use crate::ids::{id_text, uuid_text};
use crate::models::{Project, ProjectStatus};
use crate::projects::{AddProjectOptions, DomainestStatus};
use crate::text::{chars_of, decimal, decimal_chars, push_all, push_str, string_of};

verus! {

/// A parsed command line.
#[derive(Debug)]
pub struct Cli {
    pub command: Commands,
}

/// The commands of `domainest`.
#[derive(Debug)]
#[allow(inconsistent_fields)]
pub enum Commands {
    /// List registered projects
    List { json: bool },
    /// Add a project from a directory path
    Add { path: String, domain: Option<String>, port: Option<u16>, no_ssl: bool },
    /// Start a project's dev server
    Start { project: String },
    /// Stop a project's dev server
    Stop { project: String },
    /// Remove a project
    Remove { project: String, yes: bool },
    /// Open project URL in the default browser
    Open { project: String },
    /// Show project logs
    Logs { project: String, bytes: u64, follow: bool },
    /// Show overall status
    Status { json: bool },
    /// DNS zone configuration
    Zone { command: ZoneCommands },
    /// Sync macOS DNS resolvers and embedded DNS
    Dns { command: Option<DnsCommands> },
}

/// `domainest zone …`.
#[derive(Debug)]
pub enum ZoneCommands {
    /// Print the current DNS zone
    Get,
    /// Set the DNS zone (e.g. test, myapp.com)
    SetTo { zone: String },
}

/// `domainest dns …`.
#[derive(Debug)]
pub enum DnsCommands {
    /// Apply DNS configuration for all projects
    Sync,
}

/// The options `add` passes on: `--no-ssl` turns SSL off, otherwise the
/// default applies.
pub fn add_options(domain: Option<String>, port: Option<u16>, no_ssl: bool) -> (o: AddProjectOptions)
    ensures
        o.domain == domain,
        o.port == port,
        o.ssl == (if no_ssl {
            Some(false)
        } else {
            None::<bool>
        }),
{
    AddProjectOptions {
        domain,
        port,
        ssl: if no_ssl {
            Some(false)
        } else {
            None
        },
    }
}

/// `s` left-aligned in a field of `width` characters.
pub open spec fn padded(s: Seq<char>, width: nat) -> Seq<char> {
    if s.len() >= width {
        s
    } else {
        s + Seq::new((width - s.len()) as nat, |i: int| ' ')
    }
}

fn push_padded(v: &mut Vec<char>, s: &Vec<char>, width: usize)
    ensures
        final(v)@ == old(v)@ + padded(s@, width as nat),
{
    let ghost start = v@;
    push_all(v, s);
    let mut n: usize = s.len();
    while n < width
        invariant
            s.len() <= n <= width || (n == s.len() && n >= width),
            v@ == start + s@ + Seq::new((n - s.len()) as nat, |i: int| ' '),
        decreases width - n,
    {
        v.push(' ');
        n += 1;
        assert(v@ =~= start + s@ + Seq::new((n - s.len()) as nat, |i: int| ' '));
    }
    assert(v@ =~= start + padded(s@, width as nat));
}

/// The word shown for a status.
pub open spec fn status_word(s: ProjectStatus) -> Seq<char> {
    match s {
        ProjectStatus::Running => "running"@,
        ProjectStatus::Stopped => "stopped"@,
    }
}

/// One table line: id, name, port and status in fixed-width columns, then
/// the domain.
pub open spec fn table_row(id: Seq<char>, name: Seq<char>, port: Seq<char>, status: Seq<char>, domain: Seq<char>) -> Seq<char> {
    padded(id, 36) + "  "@ + padded(name, 16) + "  "@ + padded(port, 6) + "  "@ + padded(status, 8)
        + "  "@ + domain + "\n"@
}

/// The table of projects.
pub open spec fn table_rows(ps: Seq<Project>) -> Seq<char>
    decreases ps.len(),
{
    if ps.len() == 0 {
        Seq::empty()
    } else {
        let p = ps.last();
        table_rows(ps.drop_last()) + table_row(
            uuid_text(p.id),
            p.name@,
            decimal(p.port as nat),
            status_word(p.status),
            p.domain@,
        )
    }
}

/// The printed list of projects.
pub open spec fn projects_table_text(ps: Seq<Project>) -> Seq<char> {
    if ps.len() == 0 {
        "No projects.\n"@
    } else {
        table_row("ID"@, "NAME"@, "PORT"@, "STATUS"@, "DOMAIN"@) + table_rows(ps)
    }
}

fn push_row(v: &mut Vec<char>, id: &Vec<char>, name: &Vec<char>, port: &Vec<char>, status: &Vec<char>, domain: &Vec<char>)
    ensures
        final(v)@ == old(v)@ + table_row(id@, name@, port@, status@, domain@),
{
    let ghost start = v@;
    push_padded(v, id, 36);
    push_str(v, "  ");
    push_padded(v, name, 16);
    push_str(v, "  ");
    push_padded(v, port, 6);
    push_str(v, "  ");
    push_padded(v, status, 8);
    push_str(v, "  ");
    push_all(v, domain);
    push_str(v, "\n");
    assert(v@ =~= start + table_row(id@, name@, port@, status@, domain@));
}

/// The list of projects as `list` prints it.
pub fn projects_table(ps: &Vec<Project>) -> (r: String)
    ensures
        r@ == projects_table_text(ps@),
{
    if ps.len() == 0 {
        return "No projects.\n".to_string();
    }
    let mut v: Vec<char> = Vec::new();
    push_row(
        &mut v,
        &chars_of("ID"),
        &chars_of("NAME"),
        &chars_of("PORT"),
        &chars_of("STATUS"),
        &chars_of("DOMAIN"),
    );
    let ghost head = v@;
    let mut i: usize = 0;
    assert(v@ =~= head + table_rows(ps@.take(0)));
    while i < ps.len()
        invariant
            i <= ps.len(),
            head == table_row("ID"@, "NAME"@, "PORT"@, "STATUS"@, "DOMAIN"@),
            v@ == head + table_rows(ps@.take(i as int)),
        decreases ps.len() - i,
    {
        let p = &ps[i];
        let status = if p.status == ProjectStatus::Running {
            chars_of("running")
        } else {
            chars_of("stopped")
        };
        assert(ps@.take(i + 1).drop_last() =~= ps@.take(i as int));
        assert(ps@.take(i + 1).last() == ps@[i as int]);
        push_row(
            &mut v,
            &chars_of(id_text(p.id).as_str()),
            &chars_of(p.name.as_str()),
            &decimal_chars(p.port as u64),
            &status,
            &chars_of(p.domain.as_str()),
        );
        i += 1;
    }
    assert(ps@.take(ps.len() as int) =~= ps@);
    string_of(&v)
}

/// What `add` prints.
pub fn added_message(p: &Project) -> (r: String)
    ensures
        r@ == "Added "@ + p.name@ + " ("@ + p.domain@ + ") on port "@ + decimal(p.port as nat),
{
    let mut v = chars_of("Added ");
    push_str(&mut v, p.name.as_str());
    push_str(&mut v, " (");
    push_str(&mut v, p.domain.as_str());
    push_str(&mut v, ") on port ");
    push_all(&mut v, &decimal_chars(p.port as u64));
    string_of(&v)
}

/// What `start` prints.
pub fn started_message(p: &Project) -> (r: String)
    ensures
        r@ == "Started "@ + p.name@ + " → http"@ + (if p.ssl {
            "s"@
        } else {
            Seq::<char>::empty()
        }) + "://"@ + p.domain@,
{
    let mut v = chars_of("Started ");
    push_str(&mut v, p.name.as_str());
    push_str(&mut v, " → http");
    let ghost mid = v@;
    if p.ssl {
        v.push('s');
        assert(v@ =~= mid + "s"@) by {
            reveal_strlit("s");
        }
    } else {
        assert(v@ =~= mid + Seq::<char>::empty());
    }
    push_str(&mut v, "://");
    push_str(&mut v, p.domain.as_str());
    string_of(&v)
}

/// What `stop` prints.
pub fn stopped_message(p: &Project) -> (r: String)
    ensures
        r@ == "Stopped "@ + p.name@,
{
    let mut v = chars_of("Stopped ");
    push_str(&mut v, p.name.as_str());
    string_of(&v)
}

/// What `remove` prints once done.
pub fn removed_message(selector: &str) -> (r: String)
    ensures
        r@ == "Removed "@ + selector@,
{
    let mut v = chars_of("Removed ");
    push_str(&mut v, selector);
    string_of(&v)
}

/// Refusal of `remove` without `--yes`: the hint printed and the error
/// returned; nothing when confirmed.
pub fn removal_refusal(selector: &str, yes: bool) -> (r: Option<(String, AppError)>)
    ensures
        yes ==> r is None,
        !yes ==> (r matches Some((hint, e)) && hint@ == "Use -y/--yes to remove `"@ + selector@
            + "`"@ && e@ == ErrorView::ToolFailed("remove"@, "confirmation required"@)),
{
    if yes {
        return None;
    }
    let mut v = chars_of("Use -y/--yes to remove `");
    push_str(&mut v, selector);
    push_str(&mut v, "`");
    Some(
        (
            string_of(&v),
            AppError::ToolFailed {
                tool: "remove".to_string(),
                message: "confirmation required".to_string(),
            },
        ),
    )
}

/// What `zone set` prints.
pub fn zone_set_message(zone: &str) -> (r: String)
    ensures
        r@ == "DNS zone set to "@ + zone@,
{
    let mut v = chars_of("DNS zone set to ");
    push_str(&mut v, zone);
    string_of(&v)
}

/// What `status` prints (without `--json`).
pub fn status_text(s: &DomainestStatus) -> (r: String)
    ensures
        r@ == "DNS zone: "@ + s.zone@ + "\nProjects: "@ + decimal(s.projects@.len() as nat)
            + " total, "@ + decimal(s.running_count as nat) + " running\n"@
            + projects_table_text(s.projects@),
{
    let mut v = chars_of("DNS zone: ");
    push_str(&mut v, s.zone.as_str());
    push_str(&mut v, "\nProjects: ");
    push_all(&mut v, &decimal_chars(s.projects.len() as u64));
    push_str(&mut v, " total, ");
    push_all(&mut v, &decimal_chars(s.running_count as u64));
    push_str(&mut v, " running\n");
    let t = projects_table(&s.projects);
    push_str(&mut v, t.as_str());
    string_of(&v)
}

} // verus!
