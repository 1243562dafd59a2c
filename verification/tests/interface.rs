use domainest::cli::{
    add_options, added_message, projects_table, removal_refusal, removed_message, started_message,
    status_text, stopped_message, zone_set_message,
};
use domainest::error::{map_err, AppError};
use domainest::models::{Project, ProjectStatus};
use domainest::projects::status_of;
use domainest::tray::{menu_action, menu_entries, project_menus, MenuAction, MenuEntry, Page};

fn p(id: u128, name: &str, running: bool) -> Project {
    Project {
        id,
        name: name.into(),
        path: "/p".into(),
        domain: format!("{name}.test"),
        port: 3000,
        ssl: true,
        status: if running { ProjectStatus::Running } else { ProjectStatus::Stopped },
        command: "pnpm".into(),
        args: vec![],
        pid: None,
    }
}

#[test]
fn table_text() {
    assert_eq!(projects_table(&vec![]), "No projects.\n");
    let t = projects_table(&vec![p(1, "web", true)]);
    let header = format!("{:<36}  {:<16}  {:<6}  {:<8}  {}\n", "ID", "NAME", "PORT", "STATUS", "DOMAIN");
    let row = format!("{:<36}  {:<16}  {:<6}  {:<8}  {}\n", uuid::Uuid::from_u128(1).to_string(), "web", 3000, "running", "web.test");
    assert_eq!(t, format!("{header}{row}"));
    let st = status_of("test".into(), vec![p(1, "web", true), p(2, "api", false)]);
    let s = status_text(&st);
    assert!(s.starts_with("DNS zone: test\nProjects: 2 total, 1 running\nID"));
}

#[test]
fn messages() {
    let x = p(1, "web", false);
    assert_eq!(added_message(&x), "Added web (web.test) on port 3000");
    assert_eq!(started_message(&x), "Started web → https://web.test");
    assert_eq!(stopped_message(&x), "Stopped web");
    assert_eq!(removed_message("web"), "Removed web");
    assert_eq!(zone_set_message("test"), "DNS zone set to test");
    assert!(removal_refusal("web", true).is_none());
    let (hint, e) = removal_refusal("web", false).unwrap();
    assert_eq!(hint, "Use -y/--yes to remove `web`");
    assert_eq!(e.exit_code(), 2);
    let o = add_options(None, Some(1), true);
    assert_eq!(o.ssl, Some(false));
    assert_eq!(add_options(None, None, false).ssl, None);
}

#[test]
fn error_texts() {
    assert_eq!(AppError::HomeDirUnavailable.message(), "failed to determine home directory");
    assert_eq!(AppError::Io { message: "denied".into() }.message(), "io error: denied");
    assert_eq!(AppError::Json { message: "eof".into() }.message(), "json error: eof");
    assert_eq!(AppError::StoreCorrupted { path: "/x".into() }.message(), "store is corrupted: /x");
    assert_eq!(AppError::Io { message: "x".into() }.exit_code(), 1);
    assert_eq!(map_err(AppError::ToolFailed { tool: "t".into(), message: "m".into() }), "t failed: m");
}

#[test]
fn tray_menu() {
    let ps = vec![p(3, "web", true), p(4, "api", false)];
    let ms = project_menus(&ps);
    assert_eq!(ms[0].id, format!("project:{}", uuid::Uuid::from_u128(3)));
    assert_eq!(ms[0].label, "web (web.test)");
    assert_eq!(ms[0].toggle_label, "Stop");
    assert_eq!(ms[1].toggle_label, "Start");
    assert_eq!(menu_action(&ms[0].toggle_id), MenuAction::StopProject(3));
    assert_eq!(menu_action(&ms[1].toggle_id), MenuAction::StartProject(4));
    assert_eq!(menu_action(&ms[1].open_id), MenuAction::OpenProject(4));
    assert_eq!(menu_action("quit"), MenuAction::Quit);
    assert_eq!(menu_action("nav_settings"), MenuAction::Show(Page::Settings));
    assert_eq!(menu_action("add_project"), MenuAction::AddProject);
    assert_eq!(menu_action("project_start:nope"), MenuAction::Nothing);
    assert_eq!(menu_action("whatever"), MenuAction::Nothing);
}

#[test]
fn whole_menu() {
    let labels = |es: &Vec<MenuEntry>| -> Vec<String> {
        es.iter()
            .map(|e| match e {
                MenuEntry::Item { label, .. } => label.clone(),
                MenuEntry::Separator => "-".to_string(),
                MenuEntry::Project(m) => m.label.clone(),
            })
            .collect()
    };
    let empty = menu_entries(&vec![]);
    assert_eq!(labels(&empty), vec!["Projects", "Settings", "About", "-", "Add Project", "-", "Quit"]);
    let es = menu_entries(&vec![p(3, "web", true), p(4, "api", false)]);
    assert_eq!(
        labels(&es),
        vec!["Projects", "Settings", "About", "-", "web (web.test)", "api (api.test)", "-", "Add Project", "-", "Quit"]
    );
    let actions: Vec<MenuAction> = es
        .iter()
        .filter_map(|e| match e {
            MenuEntry::Item { id, .. } => Some(menu_action(id)),
            _ => None,
        })
        .collect();
    assert_eq!(
        actions,
        vec![
            MenuAction::Show(Page::Projects),
            MenuAction::Show(Page::Settings),
            MenuAction::Show(Page::About),
            MenuAction::AddProject,
            MenuAction::Quit
        ]
    );
}
