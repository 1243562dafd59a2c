use domainest::caddy::{admin_address, admin_not_ready, render_managed_block, upsert_managed_block};
use domainest::dns::{dns_address, query_matches_dns_config, DnsState};
use domainest::dnsmasq::admin_script_outcome;
use domainest::domain_suffix::{domain_under_zone, normalize_dns_zone, validate_dns_zone};
use domainest::models::{Project, ProjectStatus};
use domainest::paths::{
    app_state_path, caddy_dir, caddyfile_path, certs_dir, dnsmasq_config_path, dnsmasq_dir,
    domainest_dir, log_path, logs_dir, pidfile_path, projects_json_path,
};
use domainest::process::{next_stop_step, StopStep};
use domainest::projects::{
    free_port_exists, log_increment, mark_all_running, mark_all_stopped, mark_running, mark_stopped,
    new_project, project_by_id,
    stop_fallback, update_project, AddProjectOptions, StopFallback,
};
use domainest::store::{StateStore, Store};

fn project(id: u128, name: &str, domain: &str, port: u16, running: bool) -> Project {
    Project {
        id,
        name: name.to_string(),
        path: format!("/work/{name}"),
        domain: domain.to_string(),
        port,
        ssl: false,
        status: if running { ProjectStatus::Running } else { ProjectStatus::Stopped },
        command: "pnpm".to_string(),
        args: vec!["dev".to_string()],
        pid: None,
    }
}

#[test]
fn data_locations_below_home() {
    assert_eq!(domainest_dir("/home/u"), "/home/u/.domainest");
    assert_eq!(domainest_dir("/home/u/"), "/home/u/.domainest");
    assert_eq!(projects_json_path("/home/u"), "/home/u/.domainest/projects.json");
    assert_eq!(app_state_path("/home/u"), "/home/u/.domainest/state.json");
    assert_eq!(certs_dir("/home/u"), "/home/u/.domainest/certs");
    assert_eq!(logs_dir("/home/u"), "/home/u/.domainest/logs");
    assert_eq!(caddy_dir("/home/u"), "/home/u/.domainest/caddy");
    assert_eq!(dnsmasq_dir("/home/u"), "/home/u/.domainest/dnsmasq");
    assert_eq!(caddyfile_path("/home/u"), "/home/u/.domainest/Caddyfile");
    assert_eq!(pidfile_path("/home/u"), "/home/u/.domainest/caddy/caddy.pid");
    assert_eq!(dnsmasq_config_path("/home/u"), "/home/u/.domainest/dnsmasq/domainest.conf");
    assert_eq!(
        log_path("/home/u", 0x67e5_5044_10b1_426f_9247_bb68_0e5f_e0c8),
        "/home/u/.domainest/logs/67e55044-10b1-426f-9247-bb680e5fe0c8.log"
    );
    assert_eq!(Store::new("/home/u").path(), "/home/u/.domainest/projects.json");
    assert_eq!(Store::new("/home/u").tmp_path(), "/home/u/.domainest/projects.json.tmp");
    assert_eq!(StateStore::new("/home/u").path(), "/home/u/.domainest/state.json");
    assert_eq!(StateStore::new("/home/u").tmp_path(), "/home/u/.domainest/state.json.tmp");
}

#[test]
fn stop_steps() {
    assert_eq!(next_stop_step(true, 9999, 5000), StopStep::Finished);
    assert_eq!(next_stop_step(false, 100, 5000), StopStep::Wait);
    assert_eq!(next_stop_step(false, 5000, 5000), StopStep::ForceKill);
    assert_eq!(stop_fallback(true, Some(4)), StopFallback::Proceed);
    assert_eq!(stop_fallback(false, Some(4)), StopFallback::StopByPid(4));
    assert_eq!(stop_fallback(false, None), StopFallback::Fail);
}

#[test]
fn following_a_log() {
    assert_eq!(log_increment("hello world", 0), Some("hello world".to_string()));
    assert_eq!(log_increment("hello world", 6), Some("world".to_string()));
    assert_eq!(log_increment("hello world", 11), None);
    assert_eq!(log_increment("hello world", 40), None);
    assert_eq!(log_increment("é→x", 2), Some("→x".to_string()));
    assert_eq!(log_increment("é→x", 5), Some("x".to_string()));
}

#[test]
fn marks_from_the_menu_reach_every_copy() {
    let mut ps = vec![
        project(1, "a", "a.test", 3000, false),
        project(2, "b", "b.test", 3001, false),
        project(1, "a2", "a2.test", 3002, false),
    ];
    mark_all_running(&mut ps, 1, 9);
    assert_eq!(ps[0].pid, Some(9));
    assert_eq!(ps[2].status, ProjectStatus::Running);
    assert_eq!(ps[1].status, ProjectStatus::Stopped);
    mark_running(&mut ps, 2, 5).unwrap();
    mark_all_stopped(&mut ps, 1);
    assert_eq!((ps[0].pid, ps[2].pid), (None, None));
    assert_eq!(ps[1].pid, Some(5));
    let mut qs = vec![project(1, "a", "a.test", 3000, false), project(1, "a2", "a2.test", 3002, false)];
    mark_running(&mut qs, 1, 4).unwrap();
    assert_eq!((qs[0].pid, qs[1].pid), (Some(4), None));
}

#[test]
fn helper_messages() {
    assert_eq!(admin_address(), "127.0.0.1:2019");
    assert_eq!(dns_address(), "127.0.0.1:53535");
    assert_eq!(
        admin_not_ready("127.0.0.1:2019", 3000).message(),
        "caddy admin failed: admin endpoint did not become ready at 127.0.0.1:2019 within 3000ms"
    );
    assert!(admin_script_outcome(true, &b"ignored".to_vec()).is_ok());
    let e = admin_script_outcome(false, &b"  User canceled.\n".to_vec()).unwrap_err();
    assert_eq!(e.message(), "osascript failed: User canceled.");
}

#[test]
fn ports_and_lookup() {
    assert!(free_port_exists(&vec![]));
    let ps = vec![project(1, "a", "a.test", 3000, false), project(2, "b", "b.test", 3001, true)];
    assert!(free_port_exists(&ps));
    assert_eq!(project_by_id(&ps, 2).unwrap().name, "b");
    assert_eq!(project_by_id(&ps, 9).unwrap_err().message(), "project failed: project not found");
}

#[test]
fn zone_written_with_or_without_dot() {
    assert_eq!(normalize_dns_zone(".myapp.com"), normalize_dns_zone("myapp.com"));
    assert_eq!(normalize_dns_zone("..Test"), Ok("test".to_string()));
    assert!(validate_dns_zone(".dev").is_err());
    assert!(validate_dns_zone("my.dev").is_ok());
    assert!(validate_dns_zone("a.com").is_ok());
}

#[test]
fn default_domain_is_served_by_dns() {
    let opts = AddProjectOptions::default();
    let existing = vec![project(1, "a", "a.test", 3000, false)];
    let p = new_project(5, "/work/My-App".to_string(), &opts, "myapp.com", &existing);
    assert_eq!(p.domain, "my-app.myapp.com");
    assert_eq!(p.port, 3001);
    assert!(domain_under_zone(&p.domain, "myapp.com"));
    let mut state = DnsState::new();
    state.set_zone("myapp.com");
    assert!(query_matches_dns_config(&state, &format!("{}.", p.domain), "myapp.com"));
}

#[test]
fn default_ports_stay_distinct() {
    let opts = AddProjectOptions::default();
    let mut ps: Vec<Project> = vec![project(1, "a", "a.test", 3001, false)];
    for k in 0..4u128 {
        let p = new_project(10 + k, format!("/w/p{k}"), &opts, "test", &ps);
        ps.push(p);
    }
    let mut ports: Vec<u16> = ps.iter().map(|p| p.port).collect();
    assert_eq!(ports, vec![3001, 3000, 3002, 3003, 3004]);
    ports.sort();
    ports.dedup();
    assert_eq!(ports.len(), 5);
}

#[test]
fn rewriting_the_caddyfile_replaces_the_rendered_block() {
    let first = vec![project(1, "a", "a.test", 3000, true)];
    let second = vec![project(1, "a", "a.test", 3000, false), project(2, "b", "b.test", 3001, true)];
    let m1 = render_managed_block(&first, &vec![None]);
    let m2 = render_managed_block(&second, &vec![None, None]);
    let user_head = "example.com {\n  respond \"hi\"\n}\n";
    let user_tail = "other.com {\n}\n";
    let file = format!("{user_head}{m1}{user_tail}");
    assert_eq!(upsert_managed_block(&file, &m2), format!("{user_head}{m2}{user_tail}"));
}

#[test]
fn unicode_text_is_lowered_and_decoded() {
    let ps = vec![project(1, "a", " Café.Tëst ", 3000, false)];
    assert_eq!(domainest::dns::domains_of_projects(&ps), vec!["café.tëst"]);
    assert_eq!(domainest::projects::read_log_text(&vec![b'o', b'k', 0xff, b'!'], 10), "ok\u{fffd}!");
    let e = domainest::sidecar::tool_output_ok(false, &vec![0xc3], &b"err".to_vec(), "t").unwrap_err();
    assert_eq!(e.message(), "t failed: \u{fffd}err");
}

#[test]
fn lookup_after_change_finds_it() {
    let mut ps = vec![project(1, "a", "a.test", 3000, false), project(2, "b", "b.test", 3001, false)];
    mark_running(&mut ps, 2, 77).unwrap();
    let b = project_by_id(&ps, 2).unwrap();
    assert_eq!(b.status, ProjectStatus::Running);
    assert_eq!(b.pid, Some(77));
    let mut edited = project(2, "b", "shop.test", 3005, true);
    edited.ssl = true;
    update_project(&mut ps, edited).unwrap();
    let b = project_by_id(&ps, 2).unwrap();
    assert_eq!((b.domain.as_str(), b.port, b.ssl), ("shop.test", 3005, true));
    mark_stopped(&mut ps, 2).unwrap();
    assert_eq!(project_by_id(&ps, 2).unwrap().pid, None);
    assert_eq!(project_by_id(&ps, 1).unwrap().name, "a");
}
