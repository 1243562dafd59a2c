use domainest::cli::projects_table;
use domainest::projects::plan_new_project;
use domainest::projects::AddProjectOptions;
use domainest::models::{Project, ProjectStatus};
use domainest::resolve::{empty_selector_error, resolve_project};

fn sample(id: u128, name: &str) -> Project {
    Project {
        id,
        name: name.to_string(),
        path: "/tmp".to_string(),
        domain: format!("{name}.test"),
        port: 3000,
        ssl: true,
        status: ProjectStatus::Stopped,
        command: "pnpm".into(),
        args: vec!["dev".into()],
        pid: None,
    }
}

#[test]
fn resolves_by_name() {
    let id = 0x67e5_5044_10b1_426f_9247_bb68_0e5f_e0c8u128;
    let projects = vec![sample(id, "be-brand")];
    let p = resolve_project(&projects, "be-brand").unwrap();
    assert_eq!(p.id, id);
}

#[test]
fn resolves_by_id_prefix_and_case() {
    let a = 0xaaaa_0000_0000_4000_8000_0000_0000_0001u128;
    let b = 0xabcd_0000_0000_4000_8000_0000_0000_0002u128;
    let ps = vec![sample(a, "Shop"), sample(b, "blog")];
    assert_eq!(resolve_project(&ps, "  SHOP ").unwrap().id, a);
    assert_eq!(resolve_project(&ps, "abc").unwrap().id, b);
    assert_eq!(resolve_project(&ps, &uuid_text(b)).unwrap().id, b);
    assert_eq!(resolve_project(&ps, &uuid_text(b).to_uppercase()).unwrap().id, b);
    let e = resolve_project(&ps, "a").unwrap_err();
    assert_eq!(e.message(), "project failed: ambiguous project id prefix `a`");
    let e = resolve_project(&ps, "zzz").unwrap_err();
    assert_eq!(e.message(), "project failed: no project matching `zzz`");
    let missing = "00000000-0000-4000-8000-000000000000";
    let e = resolve_project(&ps, missing).unwrap_err();
    assert_eq!(e.message(), format!("project failed: no project with id {missing}"));
    let e = resolve_project(&ps, "   ").unwrap_err();
    assert_eq!(e.message(), "project failed: project selector cannot be empty");
    assert!(empty_selector_error(" \t").is_some());
    assert!(empty_selector_error("x").is_none());
}

#[test]
fn duplicate_names_are_refused() {
    let ps = vec![sample(1, "app"), sample(2, "APP")];
    let e = resolve_project(&ps, "app").unwrap_err();
    assert_eq!(e.message(), "project failed: multiple projects named `app`");
}

fn uuid_text(id: u128) -> String {
    uuid::Uuid::from_u128(id).to_string()
}

#[test]
fn ids_are_read_and_written_as_uuids() {
    let id = 0xa1a2a3a4_b1b2_c1c2_d1d2_d3d4d5d6d7d8u128;
    let ps = vec![sample(7, "other"), sample(id, "web")];
    let table = projects_table(&ps);
    assert!(table.contains("a1a2a3a4-b1b2-c1c2-d1d2-d3d4d5d6d7d8  web"));
    for sel in [
        "a1a2a3a4-b1b2-c1c2-d1d2-d3d4d5d6d7d8",
        "A1A2A3A4B1B2C1C2D1D2D3D4D5D6D7D8",
        "{a1a2a3a4-b1b2-c1c2-d1d2-d3d4d5d6d7d8}",
        "urn:uuid:a1a2a3a4-b1b2-c1c2-d1d2-d3d4d5d6d7d8",
    ] {
        assert_eq!(resolve_project(&ps, sel).unwrap().id, id);
    }
    assert_eq!(resolve_project(&ps, "a1a2a3a4").unwrap().id, id);
}

#[test]
fn new_projects_get_random_v4_ids() {
    let opts = AddProjectOptions::default();
    let a = plan_new_project("/w/a".to_string(), &opts, "test", &vec![]);
    let b = plan_new_project("/w/b".to_string(), &opts, "test", &vec![]);
    assert_ne!(a.id, b.id);
    for id in [a.id, b.id] {
        assert_eq!((id >> 76) & 0xf, 4);
        assert_eq!((id >> 62) & 0x3, 2);
    }
}
