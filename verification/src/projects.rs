//! Operations on the list of registered projects: adding, updating,
//! starting, stopping, removing, and the derived facts (zone, status, URL).
use vstd::prelude::*;

use crate::dns::matches_config;
use crate::domain_suffix::{
    is_under_zone, law_subdomain_under_zone, law_under_zone_ignores_root_dot, law_zone_under_itself,
    lemma_ascii_suffix, lemma_normalized_form, lemma_trim_start_char_suffix, normalize_dns_zone,
    normalized_zone, validate_dns_zone, zone_validation,
};
use crate::error::{AppError, ErrorView};
use crate::ids::{new_random_id, pow16};
use crate::models::{Project, ProjectStatus, ProjectView, project_views};
use crate::paths::{project_name_from_path, project_name_of};
use crate::resolve::{first_with_id, index_of_id, lemma_first_with_id_absent};
use crate::text::{
    ascii_lower, char_len_utf8, chars_of, is_ascii_digit, is_ascii_lower, is_ascii_text,
    is_white_space, lower, lower_text, push_all, push_str, slice_chars, string_of, texts, trim,
    trim_start_char, trim_start_matches, trim_start_ws, trim_ws, utf8_len, utf8_len_exceeds,
};

verus! {

/// Choices a user may make when adding a project.
#[derive(Debug)]
pub struct AddProjectOptions {
    pub domain: Option<String>,
    pub port: Option<u16>,
    pub ssl: Option<bool>,
}

impl Default for AddProjectOptions {
    /// No choices made.
    fn default() -> (o: Self)
        ensures
            o.domain is None,
            o.port is None,
            o.ssl is None,
    {
        AddProjectOptions { domain: None, port: None, ssl: None }
    }
}

/// Some project in `ps` listens on `port`.
pub open spec fn port_used(ps: Seq<Project>, port: u16) -> bool {
    exists|i: int| 0 <= i < ps.len() && #[trigger] ps[i].port == port
}

/// Some port from 3000 up is free.
pub open spec fn has_free_port(ps: Seq<Project>) -> bool {
    exists|p: u16| 3000 <= p && !port_used(ps, p)
}

/// The smallest port from 3000 up that no project uses.
pub open spec fn is_first_free_port(ps: Seq<Project>, port: u16) -> bool {
    &&& 3000 <= port
    &&& !port_used(ps, port)
    &&& forall|q: u16| 3000 <= q < port ==> port_used(ps, q)
}

/// A project's domain as stored: trimmed, leading dots dropped, lowercased.
pub open spec fn stored_domain(d: Seq<char>) -> Seq<char> {
    lower_text(trim_start_char(trim_ws(d), '.'))
}

/// The domain a new project gets: the one asked for, else `<name>.<zone>`.
pub open spec fn new_project_domain(asked: Option<Seq<char>>, name: Seq<char>, zone: Seq<char>) -> Seq<
    char,
> {
    match asked {
        Some(d) => stored_domain(d),
        None => stored_domain(name + seq!['.'] + zone),
    }
}

fn port_in_use(ps: &Vec<Project>, port: u16) -> (r: bool)
    ensures
        r == port_used(ps@, port),
{
    let mut i: usize = 0;
    while i < ps.len()
        invariant
            i <= ps.len(),
            forall|k: int| 0 <= k < i ==> ps@[k].port != port,
        decreases ps.len() - i,
    {
        if ps[i].port == port {
            assert(ps@[i as int].port == port);
            return true;
        }
        i += 1;
    }
    false
}

/// Whether some port from 3000 up is free of projects.
pub fn free_port_exists(ps: &Vec<Project>) -> (r: bool)
    ensures
        r == has_free_port(ps@),
{
    let mut port: u16 = 3000;
    loop
        invariant
            3000 <= port,
            forall|q: u16| 3000 <= q < port ==> port_used(ps@, q),
        decreases 65535 - port,
    {
        if !port_in_use(ps, port) {
            return true;
        }
        if port == 65535 {
            assert forall|q: u16| 3000 <= q implies port_used(ps@, q) by {
                if q < port {
                } else {
                    assert(q == port);
                }
            }
            return false;
        }
        port = port + 1;
    }
}

/// The smallest port from 3000 up that no project in `ps` uses.
pub fn first_free_port(ps: &Vec<Project>) -> (port: u16)
    requires
        has_free_port(ps@),
    ensures
        is_first_free_port(ps@, port),
{
    let mut port: u16 = 3000;
    while port_in_use(ps, port)
        invariant
            3000 <= port,
            has_free_port(ps@),
            forall|q: u16| 3000 <= q < port ==> port_used(ps@, q),
        decreases 65535 - port,
    {
        if port == 65535 {
            proof {
                let p = choose|p: u16| 3000 <= p && !port_used(ps@, p);
                assert(port_used(ps@, p));
            }
        }
        port = port + 1;
    }
    port
}

/// The domain asked for in `opts`, if any.
pub open spec fn domain_asked(opts: AddProjectOptions) -> Option<Seq<char>> {
    match opts.domain {
        Some(d) => Some(d@),
        None => None,
    }
}

/// The project added from `path` with id `id`, given the current zone and
/// projects: named after its directory, on the asked or first free port,
/// stopped, running `pnpm dev`.
pub open spec fn is_new_project(
    p: ProjectView,
    id: u128,
    path: Seq<char>,
    opts: AddProjectOptions,
    zone: Seq<char>,
    ps: Seq<Project>,
) -> bool {
    let name = project_name_of(path);
    &&& p.id == id
    &&& p.name == name
    &&& p.path == path
    &&& p.domain == new_project_domain(domain_asked(opts), name, zone)
    &&& match opts.port {
        Some(port) => p.port == port,
        None => is_first_free_port(ps, p.port),
    }
    &&& p.ssl == match opts.ssl {
        Some(b) => b,
        None => true,
    }
    &&& p.status == ProjectStatus::Stopped
    &&& p.command == "pnpm"@
    &&& p.args == seq!["dev"@]
    &&& p.pid is None
}

/// The project a user adds from `path`, with the given id.
pub fn new_project(id: u128, path: String, opts: &AddProjectOptions, zone: &str, ps: &Vec<Project>) -> (p: Project)
    requires
        opts.port is None ==> has_free_port(ps@),
    ensures
        is_new_project(p@, id, path@, *opts, zone@, ps@),
{
    let name = project_name_from_path(path.as_str());
    let ghost asked = domain_asked(*opts);
    let raw = match &opts.domain {
        Some(d) => chars_of(d.as_str()),
        None => {
            let mut v = chars_of(name.as_str());
            v.push('.');
            let z = chars_of(zone);
            push_all(&mut v, &z);
            assert(v@ =~= name@ + seq!['.'] + zone@);
            v
        },
    };
    assert(raw@ == match asked {
        Some(d) => d,
        None => name@ + seq!['.'] + zone@,
    });
    let domain = string_of(&lower(&trim_start_matches(&crate::text::trim(&raw), '.')));
    assert(domain@ == new_project_domain(asked, name@, zone@));
    let port = match opts.port {
        Some(p) => p,
        None => first_free_port(ps),
    };
    let ssl = match opts.ssl {
        Some(b) => b,
        None => true,
    };
    let args = crate::models::default_args();
    let command = "pnpm".to_string();
    assert(command@ == "pnpm"@);
    Project {
        id,
        name,
        path,
        domain,
        port,
        ssl,
        status: ProjectStatus::Stopped,
        command,
        args,
        pid: None,
    }
}

/// The project a user adds from `path`, with a fresh random id: a version
/// 4 UUID of the RFC 4122 variant.
pub fn plan_new_project(path: String, opts: &AddProjectOptions, zone: &str, ps: &Vec<Project>) -> (p:
    Project)
    requires
        opts.port is None ==> has_free_port(ps@),
    ensures
        is_new_project(p@, p.id, path@, *opts, zone@, ps@),
        (p.id as nat / pow16(19)) % 16 == 4,
        (p.id as nat / pow16(15)) % 16 >= 8,
        (p.id as nat / pow16(15)) % 16 < 12,
{
    let id = new_random_id();
    new_project(id, path, opts, zone, ps)
}

/// Number of running projects.
pub open spec fn running_count(ps: Seq<Project>) -> nat {
    ps.filter(|p: Project| p.status == ProjectStatus::Running).len()
}

/// How many projects are running.
pub fn count_running(ps: &Vec<Project>) -> (n: usize)
    ensures
        n == running_count(ps@),
{
    let ghost f = |p: Project| p.status == ProjectStatus::Running;
    let mut n: usize = 0;
    let mut i: usize = 0;
    while i < ps.len()
        invariant
            i <= ps.len(),
            f == (|p: Project| p.status == ProjectStatus::Running),
            n == ps@.take(i as int).filter(f).len(),
            n <= i,
        decreases ps.len() - i,
    {
        assert(ps@.take(i + 1).drop_last() =~= ps@.take(i as int));
        assert(ps@.take(i + 1).last() == ps@[i as int]);
        proof {
            reveal_with_fuel(Seq::filter, 1);
        }
        if ps[i].status == ProjectStatus::Running {
            n += 1;
        }
        i += 1;
    }
    assert(ps@.take(ps.len() as int) =~= ps@);
    n
}

/// The overall status: the zone, all projects and how many run.
pub struct DomainestStatus {
    pub zone: String,
    pub projects: Vec<Project>,
    pub running_count: usize,
}

/// The status for `zone` and `projects`.
pub fn status_of(zone: String, projects: Vec<Project>) -> (s: DomainestStatus)
    ensures
        s.zone@ == zone@,
        s.projects@ == projects@,
        s.running_count == running_count(projects@),
{
    let running_count = count_running(&projects);
    DomainestStatus { zone, projects, running_count }
}

/// The zone in use for a stored zone text: its normalized form when that is
/// valid, otherwise `test`.
pub open spec fn effective_zone_text(stored: Seq<char>) -> Seq<char> {
    let normalized = match normalized_zone(stored) {
        Ok(z) => z,
        Err(_) => "test"@,
    };
    if zone_validation(normalized) is Ok {
        normalized
    } else {
        "test"@
    }
}

/// The zone in use for `stored`; the state file is rewritten when it
/// differs from what is stored.
pub fn effective_zone(stored: &str) -> (z: String)
    ensures
        z@ == effective_zone_text(stored@),
{
    let normalized = match normalize_dns_zone(stored) {
        Ok(z) => z,
        Err(_) => "test".to_string(),
    };
    match validate_dns_zone(normalized.as_str()) {
        Ok(()) => normalized,
        Err(_) => "test".to_string(),
    }
}

/// The zone reported for a stored zone text: its normalized form, or
/// `test` when it does not normalize.
pub open spec fn reported_zone_text(stored: Seq<char>) -> Seq<char> {
    match normalized_zone(stored) {
        Ok(z) => z,
        Err(_) => "test"@,
    }
}

/// The zone reported by `get_zone` for the stored zone text.
pub fn reported_zone(stored: &str) -> (z: String)
    ensures
        z@ == reported_zone_text(stored@),
{
    match normalize_dns_zone(stored) {
        Ok(z) => z,
        Err(_) => "test".to_string(),
    }
}

/// The zone stored when the user sets `raw`, or why it is refused.
pub open spec fn zone_setting(raw: Seq<char>) -> Result<Seq<char>, ErrorView> {
    match normalized_zone(raw) {
        Err(e) => Err(ErrorView::ToolFailed("zone"@, e)),
        Ok(z) => match zone_validation(z) {
            Err(e) => Err(ErrorView::ToolFailed("zone"@, e)),
            Ok(()) => Ok(z),
        },
    }
}

/// Checks a zone the user asks for; gives the normalized zone to store.
pub fn checked_zone(raw: &str) -> (r: Result<String, AppError>)
    ensures
        match r {
            Ok(z) => zone_setting(raw@) == Ok::<Seq<char>, ErrorView>(z@),
            Err(e) => zone_setting(raw@) == Err::<Seq<char>, ErrorView>(e@),
        },
{
    let zone = match normalize_dns_zone(raw) {
        Ok(z) => z,
        Err(e) => {
            return Err(AppError::ToolFailed { tool: "zone".to_string(), message: e });
        },
    };
    match validate_dns_zone(zone.as_str()) {
        Ok(()) => Ok(zone),
        Err(e) => Err(AppError::ToolFailed { tool: "zone".to_string(), message: e }),
    }
}

/// The domains of `ps`, in order.
pub open spec fn domains_of(ps: Seq<Project>) -> Seq<Seq<char>> {
    Seq::new(ps.len(), |i: int| ps[i].domain@)
}

/// The domains of the projects, handed to the DNS setup.
pub fn project_domains(ps: &Vec<Project>) -> (r: Vec<String>)
    ensures
        texts(r@) == domains_of(ps@),
{
    let mut r: Vec<String> = Vec::new();
    let mut i: usize = 0;
    while i < ps.len()
        invariant
            i <= ps.len(),
            r@.len() == i,
            forall|k: int| 0 <= k < i ==> (#[trigger] r@[k])@ == ps@[k].domain@,
        decreases ps.len() - i,
    {
        r.push(ps[i].domain.clone());
        i += 1;
    }
    assert(texts(r@) =~= domains_of(ps@));
    r
}

/// The URL a project is opened at.
pub open spec fn url_text(p: ProjectView) -> Seq<char> {
    (if p.ssl {
        "https"@
    } else {
        "http"@
    }) + "://"@ + p.domain
}

/// The URL of a project: `https://domain` with SSL, else `http://domain`.
pub fn project_url(p: &Project) -> (u: String)
    ensures
        u@ == url_text(p@),
{
    let mut v: Vec<char> = Vec::new();
    if p.ssl {
        push_str(&mut v, "https");
    } else {
        push_str(&mut v, "http");
    }
    push_str(&mut v, "://");
    push_str(&mut v, p.domain.as_str());
    string_of(&v)
}

/// The error for a project id that is not in the list.
pub open spec fn not_found_error() -> ErrorView {
    ErrorView::ToolFailed("project"@, "project not found"@)
}

fn not_found() -> (e: AppError)
    ensures
        e@ == not_found_error(),
{
    AppError::ToolFailed { tool: "project".to_string(), message: "project not found".to_string() }
}

/// The first project with id `id`, or the not-found error.
pub fn project_by_id(ps: &Vec<Project>, id: u128) -> (r: Result<Project, AppError>)
    ensures
        match first_with_id(ps@, id) {
            Some(i) => r matches Ok(q) && q@ == ps@[i]@,
            None => r matches Err(e) && e@ == not_found_error(),
        },
{
    match index_of_id(ps, id) {
        Some(i) => Ok(ps[i].duplicate()),
        None => Err(not_found()),
    }
}

/// Replaces the first project with the same id as `project` (an edit from
/// the dashboard) and gives the stored value.
pub fn update_project(ps: &mut Vec<Project>, project: Project) -> (r: Result<Project, AppError>)
    ensures
        match first_with_id(old(ps)@, project.id) {
            Some(i) => r matches Ok(q) && q@ == project@ && project_views(final(ps)@)
                == project_views(old(ps)@).update(i, project@),
            None => r matches Err(e) && e@ == not_found_error() && final(ps)@ == old(ps)@,
        },
{
    match index_of_id(ps, project.id) {
        Some(i) => {
            let copy = project.duplicate();
            let ghost before = ps@;
            ps.set(i, project);
            assert(project_views(ps@) =~= project_views(before).update(i as int, copy@));
            Ok(copy)
        },
        None => Err(not_found()),
    }
}

/// `p` after its dev server started with process id `pid`.
pub open spec fn started(p: ProjectView, pid: u32) -> ProjectView {
    ProjectView { status: ProjectStatus::Running, pid: Some(pid), ..p }
}

/// `p` after its dev server stopped.
pub open spec fn stopped(p: ProjectView) -> ProjectView {
    ProjectView { status: ProjectStatus::Stopped, pid: None, ..p }
}

/// Records that the first project with id `id` runs as process `pid`.
pub fn mark_running(ps: &mut Vec<Project>, id: u128, pid: u32) -> (r: Result<Project, AppError>)
    ensures
        match first_with_id(old(ps)@, id) {
            Some(i) => r matches Ok(q) && q@ == started(old(ps)@[i]@, pid) && project_views(
                final(ps)@,
            ) == project_views(old(ps)@).update(i, started(old(ps)@[i]@, pid)),
            None => r matches Err(e) && e@ == not_found_error() && final(ps)@ == old(ps)@,
        },
{
    match index_of_id(ps, id) {
        Some(i) => {
            let mut p = ps[i].duplicate();
            p.status = ProjectStatus::Running;
            p.pid = Some(pid);
            let copy = p.duplicate();
            let ghost before = ps@;
            ps.set(i, p);
            assert(project_views(ps@) =~= project_views(before).update(i as int, copy@));
            Ok(copy)
        },
        None => Err(not_found()),
    }
}

/// Records that the first project with id `id` is stopped.
pub fn mark_stopped(ps: &mut Vec<Project>, id: u128) -> (r: Result<Project, AppError>)
    ensures
        match first_with_id(old(ps)@, id) {
            Some(i) => r matches Ok(q) && q@ == stopped(old(ps)@[i]@) && project_views(final(ps)@)
                == project_views(old(ps)@).update(i, stopped(old(ps)@[i]@)),
            None => r matches Err(e) && e@ == not_found_error() && final(ps)@ == old(ps)@,
        },
{
    match index_of_id(ps, id) {
        Some(i) => {
            let mut p = ps[i].duplicate();
            p.status = ProjectStatus::Stopped;
            p.pid = None;
            let copy = p.duplicate();
            let ghost before = ps@;
            ps.set(i, p);
            assert(project_views(ps@) =~= project_views(before).update(i as int, copy@));
            Ok(copy)
        },
        None => Err(not_found()),
    }
}

/// Records that every project with id `id` runs as process `pid` (what a
/// start from the menu records).
pub fn mark_all_running(ps: &mut Vec<Project>, id: u128, pid: u32)
    ensures
        final(ps)@.len() == old(ps)@.len(),
        forall|k: int|
            0 <= k < old(ps)@.len() ==> (#[trigger] final(ps)@[k])@ == (if old(ps)@[k].id == id {
                started(old(ps)@[k]@, pid)
            } else {
                old(ps)@[k]@
            }),
{
    let ghost start = ps@;
    let mut i: usize = 0;
    while i < ps.len()
        invariant
            i <= ps.len() == start.len(),
            forall|k: int| i <= k < ps@.len() ==> ps@[k] == start[k],
            forall|k: int|
                0 <= k < i ==> (#[trigger] ps@[k])@ == (if start[k].id == id {
                    started(start[k]@, pid)
                } else {
                    start[k]@
                }),
        decreases ps.len() - i,
    {
        if ps[i].id == id {
            let mut p = ps[i].duplicate();
            p.status = ProjectStatus::Running;
            p.pid = Some(pid);
            ps.set(i, p);
        }
        i += 1;
    }
}

/// Records that every project with id `id` is stopped (what a stop from
/// the menu records).
pub fn mark_all_stopped(ps: &mut Vec<Project>, id: u128)
    ensures
        final(ps)@.len() == old(ps)@.len(),
        forall|k: int|
            0 <= k < old(ps)@.len() ==> (#[trigger] final(ps)@[k])@ == (if old(ps)@[k].id == id {
                stopped(old(ps)@[k]@)
            } else {
                old(ps)@[k]@
            }),
{
    let ghost start = ps@;
    let mut i: usize = 0;
    while i < ps.len()
        invariant
            i <= ps.len() == start.len(),
            forall|k: int| i <= k < ps@.len() ==> ps@[k] == start[k],
            forall|k: int|
                0 <= k < i ==> (#[trigger] ps@[k])@ == (if start[k].id == id {
                    stopped(start[k]@)
                } else {
                    start[k]@
                }),
        decreases ps.len() - i,
    {
        if ps[i].id == id {
            let mut p = ps[i].duplicate();
            p.status = ProjectStatus::Stopped;
            p.pid = None;
            ps.set(i, p);
        }
        i += 1;
    }
}

/// Removes every project with id `id`; tells whether the first of them was
/// running, so that its dev server is stopped first.
pub fn remove_project(ps: &mut Vec<Project>, id: u128) -> (was_running: bool)
    ensures
        final(ps)@ == old(ps)@.filter(|p: Project| p.id != id),
        was_running == (first_with_id(old(ps)@, id) matches Some(i) && old(ps)@[i].status
            == ProjectStatus::Running),
{
    let was_running = match index_of_id(ps, id) {
        Some(i) => ps[i].status == ProjectStatus::Running,
        None => false,
    };
    let ghost f = |p: Project| p.id != id;
    let ghost start = ps@;
    let mut i: usize = 0;
    let ghost mut j: int = 0;
    assert(start.take(0).filter(f) =~= Seq::<Project>::empty());
    assert(ps@.subrange(0, 0) =~= start.take(0).filter(f));
    assert(ps@.subrange(0, ps@.len() as int) =~= start.subrange(0, start.len() as int));
    while i < ps.len()
        invariant
            0 <= j <= start.len(),
            i <= ps.len(),
            f == (|p: Project| p.id != id),
            ps@.subrange(0, i as int) == start.take(j).filter(f),
            ps@.subrange(i as int, ps@.len() as int) == start.subrange(j, start.len() as int),
        decreases ps.len() - i,
    {
        let ghost before = ps@;
        assert(before.subrange(i as int, before.len() as int).len() > 0);
        assert(j < start.len());
        assert(before[i as int] == before.subrange(i as int, before.len() as int)[0]);
        assert(start.take(j + 1).drop_last() =~= start.take(j));
        assert(start.take(j + 1).last() == start[j]);
        proof {
            reveal_with_fuel(Seq::filter, 1);
        }
        if ps[i].id == id {
            let _gone = ps.remove(i);
            proof {
                assert(ps@.subrange(0, i as int) =~= before.subrange(0, i as int));
                assert(ps@.subrange(i as int, ps@.len() as int) =~= before.subrange(
                    i + 1,
                    before.len() as int,
                ));
                assert(start.subrange(j + 1, start.len() as int) =~= start.subrange(
                    j,
                    start.len() as int,
                ).drop_first());
                j = j + 1;
            }
        } else {
            i += 1;
            proof {
                assert(ps@.subrange(0, i as int) =~= before.subrange(0, i - 1).push(before[i - 1]));
                assert(ps@.subrange(i as int, ps@.len() as int) =~= before.subrange(
                    i - 1,
                    before.len() as int,
                ).drop_first());
                assert(start.subrange(j + 1, start.len() as int) =~= start.subrange(
                    j,
                    start.len() as int,
                ).drop_first());
                j = j + 1;
            }
        }
    }
    proof {
        assert(start.subrange(j, start.len() as int).len() == 0);
        assert(j == start.len());
        assert(start.take(j) =~= start);
        assert(ps@ =~= ps@.subrange(0, i as int));
    }
    was_running
}

/// `p` after start-up reconciliation, `alive` telling whether its recorded
/// process still runs: a running project whose process is gone is stopped.
pub open spec fn reconciled(p: ProjectView, alive: bool) -> ProjectView {
    if p.status == ProjectStatus::Running && !alive {
        stopped(p)
    } else {
        p
    }
}

/// Marks as stopped every running project whose process is gone;
/// `alive[i]` tells whether the process of `ps[i]` still runs. Tells whether
/// anything changed, so that the list is saved.
pub fn reconcile_statuses(ps: &mut Vec<Project>, alive: &Vec<bool>) -> (changed: bool)
    requires
        alive.len() == old(ps).len(),
    ensures
        final(ps)@.len() == old(ps)@.len(),
        forall|i: int|
            0 <= i < old(ps)@.len() ==> (#[trigger] final(ps)@[i])@ == reconciled(
                old(ps)@[i]@,
                alive@[i],
            ),
        changed == exists|i: int|
            0 <= i < old(ps)@.len() && (#[trigger] old(ps)@[i]).status == ProjectStatus::Running
                && !alive@[i],
{
    let ghost start = ps@;
    let mut changed = false;
    let mut i: usize = 0;
    while i < ps.len()
        invariant
            i <= ps.len() == alive.len() == start.len(),
            forall|k: int| i <= k < ps@.len() ==> ps@[k] == start[k],
            forall|k: int|
                0 <= k < i ==> (#[trigger] ps@[k])@ == reconciled(start[k]@, alive@[k]),
            changed == exists|k: int|
                0 <= k < i && (#[trigger] start[k]).status == ProjectStatus::Running
                    && !alive@[k],
        decreases ps.len() - i,
    {
        if ps[i].status == ProjectStatus::Running && !alive[i] {
            let mut p = ps[i].duplicate();
            p.status = ProjectStatus::Stopped;
            p.pid = None;
            ps.set(i, p);
            changed = true;
        }
        i += 1;
    }
    changed
}

/// The largest number of log bytes shown at once.
pub open spec fn max_log_bytes() -> u64 {
    500_000
}

/// The tail of a log shown for a request of `max_bytes`: at most
/// `min(max_bytes, 500000)` final bytes.
pub open spec fn log_window_bytes(data: Seq<u8>, max_bytes: u64) -> Seq<u8> {
    let max = if max_bytes < max_log_bytes() {
        max_bytes
    } else {
        max_log_bytes()
    };
    if data.len() <= max {
        data
    } else {
        data.subrange(data.len() - max, data.len() as int)
    }
}

/// The final bytes of a log that are shown.
pub fn log_window(data: &Vec<u8>, max_bytes: u64) -> (r: Vec<u8>)
    ensures
        r@ == log_window_bytes(data@, max_bytes),
{
    let max: u64 = if max_bytes < 500_000 {
        max_bytes
    } else {
        500_000
    };
    let n = data.len();
    let mut start: usize = 0;
    if (n as u64) > max {
        start = n - (max as usize);
    }
    let mut r: Vec<u8> = Vec::new();
    let mut i: usize = start;
    while i < n
        invariant
            start <= i <= n == data.len(),
            r@ == data@.subrange(start as int, i as int),
        decreases n - i,
    {
        r.push(data[i]);
        i += 1;
        assert(r@ =~= data@.subrange(start as int, i as int));
    }
    assert(data@.subrange(0, n as int) =~= data@);
    r
}

/// The log text shown: the final bytes, decoded as UTF-8 with invalid
/// sequences replaced.
pub fn read_log_text(data: &Vec<u8>, max_bytes: u64) -> (s: String)
    ensures
        s@ == crate::text::utf8_lossy_text(log_window_bytes(data@, max_bytes)),
{
    let w = log_window(data, max_bytes);
    crate::text::utf8_lossy(&w)
}

/// `b` bytes into the UTF-8 encoding of `s` is a character boundary
/// (`str::is_char_boundary`).
pub open spec fn is_char_boundary(s: Seq<char>, b: nat) -> bool {
    exists|k: int| 0 <= k <= s.len() && utf8_len(s.subrange(0, k)) == b
}

/// Longer prefixes take more bytes.
proof fn lemma_utf8_prefix_increasing(s: Seq<char>, j: int, k: int)
    requires
        0 <= j < k <= s.len(),
    ensures
        utf8_len(s.subrange(0, j)) < utf8_len(s.subrange(0, k)),
    decreases k - j,
{
    assert(s.subrange(0, k).drop_last() =~= s.subrange(0, k - 1));
    if j < k - 1 {
        lemma_utf8_prefix_increasing(s, j, k - 1);
    }
}

/// What a follower of a log writes after reading it again: the text past
/// the first `shown` bytes it has already written, when the log has grown
/// past them. Cutting inside a character is left out, as slicing the text
/// there panics.
pub fn log_increment(content: &str, shown: usize) -> (r: Option<String>)
    requires
        utf8_len(content@) > shown ==> is_char_boundary(content@, shown as nat),
    ensures
        match r {
            Some(t) => utf8_len(content@) > shown && forall|k: int|
                0 <= k <= content@.len() && utf8_len(content@.subrange(0, k)) == shown ==> t@
                    == content@.subrange(k, content@.len() as int),
            None => utf8_len(content@) <= shown,
        },
{
    let c = chars_of(content);
    if !utf8_len_exceeds(&c, shown) {
        return None;
    }
    let ghost s = c@;
    let mut acc: usize = 0;
    let mut i: usize = 0;
    assert(s.subrange(0, 0) =~= Seq::<char>::empty());
    while acc < shown
        invariant
            s == c@,
            s == content@,
            i <= c.len(),
            acc <= shown,
            acc == utf8_len(s.subrange(0, i as int)),
            utf8_len(s) > shown,
            is_char_boundary(s, shown as nat),
        decreases c.len() - i,
    {
        if i == c.len() {
            proof {
                assert(s.subrange(0, i as int) =~= s);
            }
            return None;
        }
        let n = char_len_utf8(c[i]);
        assert(s.subrange(0, i + 1).drop_last() =~= s.subrange(0, i as int));
        if n > shown - acc {
            proof {
                let k = choose|k: int| 0 <= k <= s.len() && utf8_len(s.subrange(0, k)) == shown;
                if k <= i {
                    if k < i {
                        lemma_utf8_prefix_increasing(s, k, i as int);
                    }
                } else if k == i + 1 {
                } else {
                    lemma_utf8_prefix_increasing(s, i + 1, k);
                }
            }
            return None;
        }
        acc = acc + n;
        i += 1;
    }
    proof {
        assert forall|k: int|
            0 <= k <= s.len() && utf8_len(s.subrange(0, k)) == shown implies k == i by {
            if k < i {
                lemma_utf8_prefix_increasing(s, k, i as int);
            } else if k > i {
                lemma_utf8_prefix_increasing(s, i as int, k);
            }
        }
    }
    let rest = slice_chars(&c, i, c.len());
    Some(string_of(&rest))
}

/// How stopping a project goes on once its tracked process was asked to stop.
#[derive(PartialEq, Eq, Structural, Clone, Copy, Debug)]
pub enum StopFallback {
    /// Stopping worked: mark the project stopped.
    Proceed,
    /// Stopping failed: stop the recorded process group, then mark the
    /// project stopped.
    StopByPid(u32),
    /// Stopping failed and no process id is recorded: report the failure.
    Fail,
}

/// The next step of stopping a project, from whether stopping its tracked
/// process worked and the process id recorded for it.
pub fn stop_fallback(tracked_stop_ok: bool, pid: Option<u32>) -> (f: StopFallback)
    ensures
        tracked_stop_ok ==> f == StopFallback::Proceed,
        !tracked_stop_ok && pid is Some ==> f == StopFallback::StopByPid(pid->Some_0),
        !tracked_stop_ok && pid is None ==> f == StopFallback::Fail,
{
    if tracked_stop_ok {
        StopFallback::Proceed
    } else {
        match pid {
            Some(p) => StopFallback::StopByPid(p),
            None => StopFallback::Fail,
        }
    }
}

/// The certificate and key file names Domainest keeps for `domain`.
pub open spec fn cert_file_names(domain: Seq<char>) -> (Seq<char>, Seq<char>) {
    (domain + ".pem"@, domain + "-key.pem"@)
}

/// The certificate and key paths for `domain` in the certificate directory.
pub fn tls_paths_for_domain(certs_dir: &str, domain: &str) -> (r: (String, String))
    ensures
        r.0@ == crate::paths::joined(certs_dir@, cert_file_names(domain@).0),
        r.1@ == crate::paths::joined(certs_dir@, cert_file_names(domain@).1),
{
    let mut c: Vec<char> = chars_of(domain);
    push_str(&mut c, ".pem");
    let mut k: Vec<char> = chars_of(domain);
    push_str(&mut k, "-key.pem");
    let cert = crate::paths::join_path(certs_dir, string_of(&c).as_str());
    let key = crate::paths::join_path(certs_dir, string_of(&k).as_str());
    (cert, key)
}

/// The error when the browser could not be opened at `url`.
pub fn open_failed(url: &str) -> (e: AppError)
    ensures
        e@ == ErrorView::ToolFailed("open"@, "failed to open "@ + url@),
{
    let mut v = chars_of("failed to open ");
    push_str(&mut v, url);
    AppError::ToolFailed { tool: "open".to_string(), message: string_of(&v) }
}

/// The first project whose id text is exactly `id`.
pub open spec fn first_with_id_text(ps: Seq<Project>, id: Seq<char>) -> Option<int>
    decreases ps.len(),
{
    if ps.len() == 0 {
        None
    } else if crate::ids::uuid_text(ps[0].id) == id {
        Some(0)
    } else {
        match first_with_id_text(ps.drop_first(), id) {
            Some(i) => Some(i + 1),
            None => None,
        }
    }
}

proof fn lemma_first_with_id_text(ps: Seq<Project>, id: Seq<char>, i: int)
    requires
        0 <= i <= ps.len(),
        forall|k: int| 0 <= k < i ==> crate::ids::uuid_text(ps[k].id) != id,
    ensures
        i < ps.len() && crate::ids::uuid_text(ps[i].id) == id ==> first_with_id_text(ps, id) == Some(
            i,
        ),
        i == ps.len() ==> first_with_id_text(ps, id) is None,
    decreases i,
{
    if i > 0 {
        lemma_first_with_id_text(ps.drop_first(), id, i - 1);
    }
}

/// The project the dashboard names by its id text (exact match), or the
/// message that it is unknown.
pub fn find_by_id_text(ps: &Vec<Project>, id: &str) -> (r: Result<Project, String>)
    ensures
        match first_with_id_text(ps@, id@) {
            Some(i) => r matches Ok(p) && p@ == ps@[i]@,
            None => r matches Err(m) && m@ == "project not found"@,
        },
{
    let want = chars_of(id);
    let mut i: usize = 0;
    while i < ps.len()
        invariant
            i <= ps.len(),
            want@ == id@,
            forall|k: int| 0 <= k < i ==> crate::ids::uuid_text(ps@[k].id) != id@,
        decreases ps.len() - i,
    {
        let t = chars_of(crate::ids::id_text(ps[i].id).as_str());
        if crate::text::chars_eq(&t, &want) {
            proof {
                lemma_first_with_id_text(ps@, id@, i as int);
            }
            return Ok(ps[i].duplicate());
        }
        i += 1;
    }
    proof {
        lemma_first_with_id_text(ps@, id@, i as int);
    }
    Err("project not found".to_string())
}

/// Once a project is removed, no project with its id remains.
pub proof fn law_removed_project_is_gone(ps: Seq<Project>, id: u128)
    ensures
        first_with_id(ps.filter(|p: Project| p.id != id), id) is None,
{
    broadcast use vstd::seq_lib::group_filter_ensures;

    let rest = ps.filter(|p: Project| p.id != id);
    assert forall|k: int| 0 <= k < rest.len() implies rest[k].id != id by {
        let f = |p: Project| p.id != id;
        assert(f(rest[k]));
    }
    lemma_first_with_id_absent(rest, id);
}

/// Where `first_with_id` points, the project has that id.
proof fn lemma_first_with_id_found(ps: Seq<Project>, id: u128)
    ensures
        first_with_id(ps, id) matches Some(i) ==> 0 <= i < ps.len() && ps[i].id == id,
    decreases ps.len(),
{
    if ps.len() > 0 && ps[0].id != id {
        lemma_first_with_id_found(ps.drop_first(), id);
    }
}

/// `first_with_id` looks at the ids alone.
proof fn lemma_first_with_id_same_ids(a: Seq<Project>, b: Seq<Project>, id: u128)
    requires
        a.len() == b.len(),
        forall|k: int| 0 <= k < a.len() ==> a[k].id == b[k].id,
    ensures
        first_with_id(a, id) == first_with_id(b, id),
    decreases a.len(),
{
    if a.len() > 0 {
        lemma_first_with_id_same_ids(a.drop_first(), b.drop_first(), id);
    }
}

/// A change recorded for a project (an edit, a start, a stop) is what a
/// later lookup by its id finds, at the same place in the list.
pub proof fn law_lookup_after_change(
    before: Seq<Project>,
    after: Seq<Project>,
    id: u128,
    i: int,
    v: ProjectView,
)
    requires
        first_with_id(before, id) == Some(i),
        v.id == id,
        project_views(after) == project_views(before).update(i, v),
    ensures
        first_with_id(after, id) == Some(i),
        after[i]@ == v,
{
    lemma_first_with_id_found(before, id);
    assert(after.len() == before.len()) by {
        assert(project_views(after).len() == project_views(before).len());
    }
    assert forall|k: int| 0 <= k < after.len() implies after[k].id == before[k].id by {
        assert(project_views(after)[k] == after[k]@);
        assert(project_views(before)[k] == before[k]@);
    }
    lemma_first_with_id_same_ids(after, before, id);
    assert(project_views(after)[i] == after[i]@);
}

/// Stopping a started project leaves it as stopping it directly would.
pub proof fn law_stop_after_start(p: ProjectView, pid: u32)
    ensures
        stopped(started(p, pid)) == stopped(p),
{
}

/// Reconciling twice with the same process facts changes nothing more.
pub proof fn law_reconcile_idempotent(p: ProjectView, alive: bool)
    ensures
        reconciled(reconciled(p, alive), alive) == reconciled(p, alive),
        reconciled(p, alive).status == ProjectStatus::Running ==> alive,
{
}

/// A project added without a port gets one no existing project uses, and
/// the smallest such from 3000 up.
pub proof fn law_default_port_is_free(
    p: ProjectView,
    id: u128,
    path: Seq<char>,
    opts: AddProjectOptions,
    zone: Seq<char>,
    ps: Seq<Project>,
)
    requires
        is_new_project(p, id, path, opts, zone, ps),
        opts.port is None,
    ensures
        forall|i: int| 0 <= i < ps.len() ==> ps[i].port != p.port,
        p.port >= 3000,
{
}

/// No two projects of `ps` listen on the same port.
pub open spec fn ports_distinct(ps: Seq<Project>) -> bool {
    forall|i: int, j: int|
        0 <= i < ps.len() && 0 <= j < ps.len() && i != j ==> #[trigger] ps[i].port
            != #[trigger] ps[j].port
}

/// Projects added without a port keep the ports of all projects distinct.
pub proof fn law_default_ports_stay_distinct(
    p: Project,
    path: Seq<char>,
    opts: AddProjectOptions,
    zone: Seq<char>,
    ps: Seq<Project>,
)
    requires
        ports_distinct(ps),
        is_new_project(p@, p.id, path, opts, zone, ps),
        opts.port is None,
    ensures
        ports_distinct(ps.push(p)),
{
    let qs = ps.push(p);
    assert forall|i: int, j: int|
        0 <= i < qs.len() && 0 <= j < qs.len() && i != j implies #[trigger] qs[i].port
            != #[trigger] qs[j].port by {
        if i < ps.len() && j < ps.len() {
            assert(qs[i] == ps[i] && qs[j] == ps[j]);
        } else if i < ps.len() {
            assert(qs[i] == ps[i]);
            assert(!port_used(ps, p.port));
        } else {
            assert(qs[j] == ps[j]);
            assert(!port_used(ps, p.port));
        }
    }
}

/// Trimming leading white space stops at the first other character.
proof fn lemma_trim_start_ws_stops(s: Seq<char>, k: int)
    requires
        0 <= k < s.len(),
        !is_white_space(s[k]),
    ensures
        trim_start_ws(s).len() >= s.len() - k,
    decreases k,
{
    if is_white_space(s[0]) {
        lemma_trim_start_ws_stops(s.drop_first(), k - 1);
    }
}

/// Stripping a leading character stops at the first other character.
proof fn lemma_trim_start_char_stops(s: Seq<char>, c: char, k: int)
    requires
        0 <= k < s.len(),
        s[k] != c,
    ensures
        trim_start_char(s, c).len() >= s.len() - k,
    decreases k,
{
    if s[0] == c {
        lemma_trim_start_char_stops(s.drop_first(), c, k - 1);
    }
}

/// A project added without a domain of its own gets a domain under the
/// zone in use, so the DNS server answers for it, with or without its root
/// dot, whatever project domains it also knows. Stated for ASCII project
/// names and for zones in normalized form that do not end with a dot.
pub proof fn law_default_domain_under_zone(name: Seq<char>, zone: Seq<char>, domains: Seq<Seq<char>>)
    requires
        is_ascii_text(name),
        normalized_zone(zone) == Ok::<Seq<char>, Seq<char>>(zone),
        zone.last() != '.',
    ensures
        is_under_zone(new_project_domain(None, name, zone), zone),
        matches_config(new_project_domain(None, name, zone), zone, domains),
        matches_config(new_project_domain(None, name, zone).push('.'), zone, domains),
{
    lemma_normalized_form(zone);
    let s = name + seq!['.'] + zone;
    let n: int = name.len() as int;
    assert(is_ascii_text(s)) by {
        assert forall|i: int| 0 <= i < s.len() implies crate::text::is_ascii_char(#[trigger] s[i]) by {
            if i < n {
                assert(s[i] == name[i]);
            } else if i > n {
                assert(s[i] == zone[i - n - 1]);
            }
        }
    }
    assert(s[n + 1] == zone[0]);
    assert(!is_white_space(zone[0])) by {
        assert(is_ascii_lower(zone[0]) || is_ascii_digit(zone[0]) || zone[0] == '-');
    }
    // trimming white space keeps the dot before the zone and the zone
    let u = trim_start_ws(s);
    crate::text::lemma_trim_start_ws_suffix(s);
    lemma_trim_start_ws_stops(s, n);
    assert(u.len() >= zone.len() + 1);
    assert(u.last() == s.last());
    assert(s.last() == zone.last());
    assert(!is_white_space(zone.last())) by {
        let j = zone.len() - 1;
        assert(is_ascii_lower(zone[j]) || is_ascii_digit(zone[j]) || zone[j] == '-' || zone[j]
            == '.');
    }
    assert(trim_ws(s) == u);
    // stripping leading dots keeps the zone
    let v = trim_start_char(u, '.');
    lemma_trim_start_char_suffix(u, '.');
    let zk = u.len() - zone.len();
    assert(u[zk] == zone[0]) by {
        assert(u == s.subrange(s.len() - u.len(), s.len() as int));
    }
    lemma_trim_start_char_stops(u, '.', zk);
    assert(v.len() >= zone.len());
    let a = s.len() - v.len();
    assert(v =~= s.subrange(a, s.len() as int)) by {
        assert(u == s.subrange(s.len() - u.len(), s.len() as int));
        assert(v == u.subrange(u.len() - v.len(), u.len() as int));
    }
    lemma_ascii_suffix(s, v);
    let d = new_project_domain(None, name, zone);
    assert(d == ascii_lower(v));
    if v.len() == zone.len() {
        assert(v =~= zone);
        law_zone_under_itself(zone);
    } else {
        let label = s.subrange(a, n);
        assert(v =~= label + seq!['.'] + zone);
        let ll = ascii_lower(label);
        assert(is_ascii_text(ll)) by {
            assert forall|i: int| 0 <= i < ll.len() implies crate::text::is_ascii_char(#[trigger] ll[i]) by {
                assert(label[i] == s[a + i]);
                assert(crate::text::is_ascii_char(s[a + i]));
            }
        }
        assert(d =~= ll + seq!['.'] + zone) by {
            assert forall|i: int| 0 <= i < d.len() implies d[i] == (ll + seq!['.'] + zone)[i] by {
                if i > label.len() {
                    let j = i - label.len() - 1;
                    assert(v[i] == zone[j]);
                    assert(ascii_lower(zone)[j] == zone[j]);
                }
            }
        }
        law_subdomain_under_zone(ll, zone);
    }
    law_under_zone_ignores_root_dot(d, zone);
}

/// A project added from the directory `dir/n` is named after the folder
/// `n` itself (extension included, as in `example.com`), and without a
/// domain of its own it gets `n.<zone>` as stored (trimmed, leading dots
/// dropped, lowercased).
pub proof fn law_new_project_named_after_folder(
    p: ProjectView,
    id: u128,
    dir: Seq<char>,
    n: Seq<char>,
    opts: AddProjectOptions,
    zone: Seq<char>,
    ps: Seq<Project>,
)
    requires
        is_new_project(p, id, dir + seq!['/'] + n, opts, zone, ps),
        n.len() > 0,
        forall|i: int| 0 <= i < n.len() ==> n[i] != '/',
        n != "."@,
        n != ".."@,
    ensures
        p.name == n,
        opts.domain is None ==> p.domain == lower_text(
            trim_start_char(trim_ws(n + seq!['.'] + zone), '.'),
        ),
{
    crate::paths::law_file_name_is_last_component(dir, n);
}

} // verus!
