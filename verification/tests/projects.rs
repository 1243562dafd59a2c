use domainest::models::{default_args, default_command, default_domain_suffix, default_ssl, AppStateFile, Project, ProjectStatus};
use domainest::projects::{
    checked_zone, count_running, effective_zone, find_by_id_text, first_free_port, log_window,
    mark_running, mark_stopped, new_project, open_failed, project_domains, project_url,
    read_log_text, reconcile_statuses, remove_project, reported_zone, status_of,
    tls_paths_for_domain, update_project, AddProjectOptions,
};

fn project(id: u128, port: u16, running: bool) -> Project {
    Project {
        id,
        name: format!("p{id}"),
        path: format!("/w/p{id}"),
        domain: format!("p{id}.test"),
        port,
        ssl: id % 2 == 0,
        status: if running { ProjectStatus::Running } else { ProjectStatus::Stopped },
        command: "pnpm".to_string(),
        args: vec!["dev".to_string()],
        pid: if running { Some(100 + id as u32) } else { None },
    }
}

#[test]
fn new_project_defaults() {
    let ps = vec![project(1, 3000, false), project(2, 3001, false), project(3, 3003, false)];
    let p = new_project(9, "/home/me/My-Site/".to_string(), &AddProjectOptions::default(), "test", &ps);
    assert_eq!(p.id, 9);
    assert_eq!(p.name, "My-Site");
    assert_eq!(p.domain, "my-site.test");
    assert_eq!(p.port, 3002);
    assert!(p.ssl);
    assert_eq!(p.status, ProjectStatus::Stopped);
    assert_eq!(p.command, "pnpm");
    assert_eq!(p.args, vec!["dev"]);
    assert_eq!(p.pid, None);
    let opts = AddProjectOptions { domain: Some(" .Shop.Local ".to_string()), port: Some(4000), ssl: Some(false) };
    let q = new_project(1, "/".to_string(), &opts, "test", &ps);
    assert_eq!(q.name, "project");
    assert_eq!(q.domain, "shop.local");
    assert_eq!(q.port, 4000);
    assert!(!q.ssl);
    assert_eq!(first_free_port(&vec![]), 3000);
}

#[test]
fn list_updates() {
    let mut ps = vec![project(1, 3000, false), project(2, 3001, true)];
    let started = mark_running(&mut ps, 1, 555).unwrap();
    assert_eq!(started.status, ProjectStatus::Running);
    assert_eq!(ps[0].pid, Some(555));
    assert_eq!(count_running(&ps), 2);
    let stopped = mark_stopped(&mut ps, 2).unwrap();
    assert_eq!(stopped.pid, None);
    assert_eq!(ps[1].status, ProjectStatus::Stopped);
    assert!(mark_stopped(&mut ps, 77).is_err());
    let mut edited = project(2, 5000, false);
    edited.name = "renamed".to_string();
    let u = update_project(&mut ps, edited).unwrap();
    assert_eq!(u.name, "renamed");
    assert_eq!(ps[1].port, 5000);
    assert_eq!(update_project(&mut ps, project(42, 1, false)).unwrap_err().message(), "project failed: project not found");
    let was_running = remove_project(&mut ps, 1);
    assert!(was_running);
    assert_eq!(ps.len(), 1);
    assert_eq!(ps[0].id, 2);
    assert!(!remove_project(&mut ps, 1));
}

#[test]
fn reconcile_stops_dead_processes() {
    let mut ps = vec![project(1, 3000, true), project(2, 3001, true), project(3, 3002, false)];
    assert!(reconcile_statuses(&mut ps, &vec![false, true, false]));
    assert_eq!(ps[0].status, ProjectStatus::Stopped);
    assert_eq!(ps[0].pid, None);
    assert_eq!(ps[1].status, ProjectStatus::Running);
    assert!(!reconcile_statuses(&mut ps, &vec![false, true, false]));
}

#[test]
fn zones() {
    assert_eq!(effective_zone(" .MyApp.com "), "myapp.com");
    assert_eq!(effective_zone("dev"), "test");
    assert_eq!(effective_zone("bad_zone"), "test");
    assert_eq!(effective_zone(""), "test");
    assert_eq!(reported_zone("dev"), "dev");
    assert_eq!(reported_zone("!!"), "test");
    assert_eq!(checked_zone(".Test").unwrap(), "test");
    assert!(checked_zone("com").unwrap_err().message().starts_with("zone failed: `.com` routes all"));
    assert_eq!(checked_zone("").unwrap_err().message(), "zone failed: DNS zone cannot be empty");
}

#[test]
fn derived_values() {
    let ps = vec![project(1, 3000, true), project(2, 3001, false)];
    assert_eq!(project_url(&ps[0]), "http://p1.test");
    assert_eq!(project_url(&ps[1]), "https://p2.test");
    assert_eq!(project_domains(&ps), vec!["p1.test", "p2.test"]);
    let st = status_of("test".to_string(), ps);
    assert_eq!(st.running_count, 1);
    let (c, k) = tls_paths_for_domain("/h/.domainest/certs", "a.test");
    assert_eq!(c, "/h/.domainest/certs/a.test.pem");
    assert_eq!(k, "/h/.domainest/certs/a.test-key.pem");
    assert_eq!(open_failed("http://x").message(), "open failed: failed to open http://x");
    let ps = vec![project(5, 3000, false)];
    assert_eq!(find_by_id_text(&ps, &uuid::Uuid::from_u128(5).to_string()).unwrap().id, 5);
    assert_eq!(find_by_id_text(&ps, "nope").unwrap_err(), "project not found");
}

#[test]
fn log_tail_window() {
    let data: Vec<u8> = (0..10u8).map(|b| b'a' + b).collect();
    assert_eq!(log_window(&data, 3), b"hij".to_vec());
    assert_eq!(log_window(&data, 100), data);
    assert_eq!(read_log_text(&data, 4), "ghij");
    let big = vec![b'x'; 600_000];
    assert_eq!(log_window(&big, 1_000_000).len(), 500_000);
}

#[test]
fn defaults() {
    assert!(default_ssl());
    assert_eq!(default_command(), "pnpm");
    assert_eq!(default_args(), vec!["dev"]);
    assert_eq!(default_domain_suffix(), "test");
    let s = AppStateFile::default();
    assert!(!s.mkcert_installed);
    assert_eq!(s.domain_suffix, "");
    assert_eq!(ProjectStatus::default(), ProjectStatus::Stopped);
}
