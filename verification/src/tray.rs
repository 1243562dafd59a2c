//! The menu-bar menu: the per-project entries it shows and what a click on
//! an entry asks for.
use vstd::prelude::*;

use crate::ids::{id_text, law_id_text_parses_back, parse_id, parsed_uuid, uuid_text};
use crate::models::{Project, ProjectStatus};
use crate::text::{chars_eq, chars_of, push_str, slice_chars, string_of};

verus! {

/// The submenu of one project: its title, the start/stop toggle and the
/// "Open in Browser" entry, each with the id its click reports.
pub struct ProjectMenu {
    pub id: String,
    pub label: String,
    pub toggle_id: String,
    pub toggle_label: String,
    pub open_id: String,
    pub open_label: String,
}

/// The submenu of `p`: `name (domain)`, Stop for a running project and
/// Start otherwise.
pub open spec fn is_project_menu(m: ProjectMenu, p: Project) -> bool {
    let id = uuid_text(p.id);
    &&& m.id@ == "project:"@ + id
    &&& m.label@ == p.name@ + " ("@ + p.domain@ + ")"@
    &&& if p.status == ProjectStatus::Running {
        m.toggle_id@ == "project_stop:"@ + id && m.toggle_label@ == "Stop"@
    } else {
        m.toggle_id@ == "project_start:"@ + id && m.toggle_label@ == "Start"@
    }
    &&& m.open_id@ == "project_open:"@ + id
    &&& m.open_label@ == "Open in Browser"@
}

fn prefixed(prefix: &str, id: &String) -> (r: String)
    ensures
        r@ == prefix@ + id@,
{
    let mut v = chars_of(prefix);
    push_str(&mut v, id.as_str());
    string_of(&v)
}

/// The submenu for one project.
pub fn project_menu(p: &Project) -> (m: ProjectMenu)
    ensures
        is_project_menu(m, *p),
{
    let id = id_text(p.id);
    let mut label = chars_of(p.name.as_str());
    push_str(&mut label, " (");
    push_str(&mut label, p.domain.as_str());
    push_str(&mut label, ")");
    let (toggle_id, toggle_label) = if p.status == ProjectStatus::Running {
        (prefixed("project_stop:", &id), "Stop".to_string())
    } else {
        (prefixed("project_start:", &id), "Start".to_string())
    };
    ProjectMenu {
        id: prefixed("project:", &id),
        label: string_of(&label),
        toggle_id,
        toggle_label,
        open_id: prefixed("project_open:", &id),
        open_label: "Open in Browser".to_string(),
    }
}

/// The project submenus, in project order.
pub fn project_menus(ps: &Vec<Project>) -> (r: Vec<ProjectMenu>)
    ensures
        r@.len() == ps@.len(),
        forall|i: int| 0 <= i < ps@.len() ==> is_project_menu(#[trigger] r@[i], ps@[i]),
{
    let mut r: Vec<ProjectMenu> = Vec::new();
    let mut i: usize = 0;
    while i < ps.len()
        invariant
            i <= ps.len(),
            r@.len() == i,
            forall|k: int| 0 <= k < i ==> is_project_menu(#[trigger] r@[k], ps@[k]),
        decreases ps.len() - i,
    {
        r.push(project_menu(&ps[i]));
        i += 1;
    }
    r
}

/// One entry of the menu-bar menu.
pub enum MenuEntry {
    /// A plain entry: the id its click reports, and its label.
    Item { id: String, label: String },
    /// A separator line.
    Separator,
    /// A project's submenu.
    Project(ProjectMenu),
}

/// `e` is the plain entry `id` labelled `label`.
pub open spec fn is_item(e: MenuEntry, id: Seq<char>, label: Seq<char>) -> bool {
    e matches MenuEntry::Item { id: i, label: l } && i@ == id && l@ == label
}

/// The menu for `ps`: Projects, Settings and About, a separator, one
/// submenu per project (then a separator, if there is any project), Add
/// Project, a separator, and Quit.
pub open spec fn is_menu(es: Seq<MenuEntry>, ps: Seq<Project>) -> bool {
    let n = ps.len() as int;
    let k = if n > 0 {
        n + 5
    } else {
        4
    };
    &&& es.len() == k + 3
    &&& is_item(es[0], "nav_projects"@, "Projects"@)
    &&& is_item(es[1], "nav_settings"@, "Settings"@)
    &&& is_item(es[2], "nav_about"@, "About"@)
    &&& es[3] is Separator
    &&& forall|i: int| 0 <= i < n ==> (#[trigger] es[4 + i] matches MenuEntry::Project(m)
        && is_project_menu(m, ps[i]))
    &&& n > 0 ==> es[n + 4] is Separator
    &&& is_item(es[k], "add_project"@, "Add Project"@)
    &&& es[k + 1] is Separator
    &&& is_item(es[k + 2], "quit"@, "Quit"@)
}

fn item(id: &str, label: &str) -> (e: MenuEntry)
    ensures
        is_item(e, id@, label@),
{
    MenuEntry::Item { id: id.to_string(), label: label.to_string() }
}

/// The entries of the menu-bar menu for `ps`, top to bottom.
pub fn menu_entries(ps: &Vec<Project>) -> (es: Vec<MenuEntry>)
    ensures
        is_menu(es@, ps@),
{
    let mut es: Vec<MenuEntry> = Vec::new();
    es.push(item("nav_projects", "Projects"));
    es.push(item("nav_settings", "Settings"));
    es.push(item("nav_about", "About"));
    es.push(MenuEntry::Separator);
    let mut i: usize = 0;
    while i < ps.len()
        invariant
            i <= ps.len(),
            es@.len() == 4 + i,
            is_item(es@[0], "nav_projects"@, "Projects"@),
            is_item(es@[1], "nav_settings"@, "Settings"@),
            is_item(es@[2], "nav_about"@, "About"@),
            es@[3] is Separator,
            forall|j: int| 0 <= j < i ==> (#[trigger] es@[4 + j] matches MenuEntry::Project(m)
                && is_project_menu(m, ps@[j])),
        decreases ps.len() - i,
    {
        es.push(MenuEntry::Project(project_menu(&ps[i])));
        i += 1;
    }
    if ps.len() > 0 {
        es.push(MenuEntry::Separator);
    }
    es.push(item("add_project", "Add Project"));
    es.push(MenuEntry::Separator);
    es.push(item("quit", "Quit"));
    es
}

/// A page of the dashboard.
#[derive(Clone, Copy, Debug, PartialEq, Eq, Structural)]
pub enum Page {
    Projects,
    Settings,
    About,
}

/// What a click on a menu entry asks for.
#[derive(Clone, Copy, Debug, PartialEq, Eq, Structural)]
pub enum MenuAction {
    Quit,
    Show(Page),
    AddProject,
    StartProject(u128),
    StopProject(u128),
    OpenProject(u128),
    Nothing,
}

/// Index of the first `:` in `s`.
pub open spec fn first_colon(s: Seq<char>, k: int) -> Option<int>
    decreases s.len() - k,
{
    if k < 0 || k >= s.len() {
        None
    } else if s[k] == ':' {
        Some(k)
    } else {
        first_colon(s, k + 1)
    }
}

/// The request of a click on the entry with id `id`.
pub open spec fn menu_request(id: Seq<char>) -> MenuAction {
    if id == "quit"@ {
        MenuAction::Quit
    } else if id == "nav_projects"@ {
        MenuAction::Show(Page::Projects)
    } else if id == "nav_settings"@ {
        MenuAction::Show(Page::Settings)
    } else if id == "nav_about"@ {
        MenuAction::Show(Page::About)
    } else if id == "add_project"@ {
        MenuAction::AddProject
    } else {
        match first_colon(id, 0) {
            None => MenuAction::Nothing,
            Some(c) => {
                let action = id.subrange(0, c);
                match parsed_uuid(id.subrange(c + 1, id.len() as int)) {
                    None => MenuAction::Nothing,
                    Some(pid) => if action == "project_start"@ {
                        MenuAction::StartProject(pid)
                    } else if action == "project_stop"@ {
                        MenuAction::StopProject(pid)
                    } else if action == "project_open"@ {
                        MenuAction::OpenProject(pid)
                    } else {
                        MenuAction::Nothing
                    },
                }
            },
        }
    }
}

fn is(v: &Vec<char>, s: &str) -> (r: bool)
    ensures
        r == (v@ == s@),
{
    chars_eq(v, &chars_of(s))
}

/// What a click on the menu entry `id` asks for.
pub fn menu_action(id: &str) -> (a: MenuAction)
    ensures
        a == menu_request(id@),
{
    let v = chars_of(id);
    if is(&v, "quit") {
        return MenuAction::Quit;
    }
    if is(&v, "nav_projects") {
        return MenuAction::Show(Page::Projects);
    }
    if is(&v, "nav_settings") {
        return MenuAction::Show(Page::Settings);
    }
    if is(&v, "nav_about") {
        return MenuAction::Show(Page::About);
    }
    if is(&v, "add_project") {
        return MenuAction::AddProject;
    }
    let mut k: usize = 0;
    while k < v.len() && v[k] != ':'
        invariant
            k <= v.len(),
            first_colon(v@, 0) == first_colon(v@, k as int),
        decreases v.len() - k,
    {
        k += 1;
    }
    if k == v.len() {
        return MenuAction::Nothing;
    }
    let action = slice_chars(&v, 0, k);
    let rest = string_of(&slice_chars(&v, k + 1, v.len()));
    match parse_id(rest.as_str()) {
        None => MenuAction::Nothing,
        Some(pid) => {
            if is(&action, "project_start") {
                MenuAction::StartProject(pid)
            } else if is(&action, "project_stop") {
                MenuAction::StopProject(pid)
            } else if is(&action, "project_open") {
                MenuAction::OpenProject(pid)
            } else {
                MenuAction::Nothing
            }
        },
    }
}

/// In `prefix + rest`, where `prefix` ends with its only colon, the first
/// colon is the last character of `prefix`.
proof fn lemma_colon_after_prefix(prefix: Seq<char>, rest: Seq<char>)
    requires
        prefix.len() > 0,
        prefix.last() == ':',
        forall|i: int| 0 <= i < prefix.len() - 1 ==> prefix[i] != ':',
    ensures
        first_colon(prefix + rest, 0) == Some(prefix.len() - 1),
{
    let s = prefix + rest;
    assert forall|k: int| 0 <= k <= prefix.len() - 1 implies first_colon(s, k) == Some(
        prefix.len() - 1,
    ) by {
        lemma_colon_from(prefix, rest, k);
    }
}

proof fn lemma_colon_from(prefix: Seq<char>, rest: Seq<char>, k: int)
    requires
        prefix.len() > 0,
        prefix.last() == ':',
        forall|i: int| 0 <= i < prefix.len() - 1 ==> prefix[i] != ':',
        0 <= k <= prefix.len() - 1,
    ensures
        first_colon(prefix + rest, k) == Some(prefix.len() - 1),
    decreases prefix.len() - k,
{
    let s = prefix + rest;
    assert(s[k] == prefix[k]);
    if k < prefix.len() - 1 {
        lemma_colon_from(prefix, rest, k + 1);
    }
}

/// Clicking a project's toggle starts or stops that project, and clicking
/// its open entry opens it.
pub proof fn law_menu_entries_act_on_their_project(m: ProjectMenu, p: Project)
    requires
        is_project_menu(m, p),
    ensures
        menu_request(m.toggle_id@) == (if p.status == ProjectStatus::Running {
            MenuAction::StopProject(p.id)
        } else {
            MenuAction::StartProject(p.id)
        }),
        menu_request(m.open_id@) == MenuAction::OpenProject(p.id),
{
    let id = uuid_text(p.id);
    law_id_text_parses_back(p.id);
    reveal_strlit("project_stop:");
    reveal_strlit("project_start:");
    reveal_strlit("project_open:");
    reveal_strlit("project_stop");
    reveal_strlit("project_start");
    reveal_strlit("project_open");
    reveal_strlit("quit");
    reveal_strlit("nav_projects");
    reveal_strlit("nav_settings");
    reveal_strlit("nav_about");
    reveal_strlit("add_project");
    let stop = "project_stop:"@;
    let start = "project_start:"@;
    let open = "project_open:"@;
    lemma_colon_after_prefix(stop, id);
    lemma_colon_after_prefix(start, id);
    lemma_colon_after_prefix(open, id);
    assert((stop + id).subrange(0, stop.len() - 1) =~= "project_stop"@);
    assert((stop + id).subrange(stop.len() as int, (stop + id).len() as int) =~= id);
    assert((start + id).subrange(0, start.len() - 1) =~= "project_start"@);
    assert((start + id).subrange(start.len() as int, (start + id).len() as int) =~= id);
    assert((open + id).subrange(0, open.len() - 1) =~= "project_open"@);
    assert((open + id).subrange(open.len() as int, (open + id).len() as int) =~= id);
    assert((stop + id) != "quit"@ && (stop + id) != "nav_projects"@ && (stop + id)
        != "nav_settings"@ && (stop + id) != "nav_about"@ && (stop + id) != "add_project"@) by {
        assert((stop + id).len() > 13);
    }
    assert((start + id) != "quit"@ && (start + id) != "nav_projects"@ && (start + id)
        != "nav_settings"@ && (start + id) != "nav_about"@ && (start + id) != "add_project"@) by {
        assert((start + id).len() > 14);
    }
    assert((open + id) != "quit"@ && (open + id) != "nav_projects"@ && (open + id)
        != "nav_settings"@ && (open + id) != "nav_about"@ && (open + id) != "add_project"@) by {
        assert((open + id).len() > 13);
    }
    assert("project_stop"@ != "project_start"@);
    assert("project_open"@ != "project_start"@);
    assert("project_open"@ != "project_stop"@) by {
        assert("project_open"@[8] != "project_stop"@[8]);
    }
}

} // verus!
