use domainest::dnsmasq::{
    admin_script_source, dnsmasq_config, linux_dns_unsupported, removal_script, resolver_contents_ok,
    resolver_install_script, resolver_path, resolver_plan, stale_resolvers, system_zone,
    ResolverEntry,
};
use domainest::paths::{file_name, join_path, project_name_from_path, tmp_path_for, is_blank};
use domainest::process::compute_command_args_and_env;
use domainest::models::{Project, ProjectStatus};
use domainest::store::{MkcertManager, StateStore, Store};
use domainest::models::AppStateFile;

#[test]
fn dnsmasq_snippet() {
    assert_eq!(
        dnsmasq_config("..test"),
        "address=/.test/127.0.0.1\nlisten-address=127.0.0.1\nbind-interfaces\n"
    );
    assert_eq!(system_zone(".TEST"), "test");
}

#[test]
fn resolvers_for_zone_and_uncovered_domains() {
    let ds = vec!["app.test".to_string(), " Shop.Dev. ".to_string(), "".to_string(), "x.dev".to_string()];
    assert_eq!(resolver_plan(".Test", &ds), vec!["test", "shop.dev", "x.dev"]);
    assert_eq!(resolver_path(".MyApp.com"), "/etc/resolver/myapp.com");
}

#[test]
fn resolver_file_checks() {
    assert!(resolver_contents_ok("nameserver 127.0.0.1\nport 53535\n"));
    assert!(resolver_contents_ok("# x\r\n  NameServer 127.0.0.1 \r\nPORT 53535"));
    assert!(!resolver_contents_ok("nameserver 127.0.0.1\n"));
    assert!(!resolver_contents_ok("#nameserver 127.0.0.1\nport 53535\n"));
}

#[test]
fn admin_scripts() {
    assert_eq!(
        resolver_install_script("/etc/resolver/a\"b"),
        "mkdir -p /etc/resolver && printf '%s\\n' 'nameserver 127.0.0.1' 'port 53535' > \"/etc/resolver/a\\\"b\""
    );
    assert_eq!(admin_script_source("echo \"a\\b\""), "do shell script \"echo \\\"a\\\\b\\\"\" with administrator privileges");
    assert_eq!(
        removal_script(&vec!["/etc/resolver/a".to_string(), "/etc/resolver/b".to_string()]),
        "rm -f \"/etc/resolver/a\" && rm -f \"/etc/resolver/b\""
    );
    assert_eq!(removal_script(&vec![]), "");
    assert!(linux_dns_unsupported().message().starts_with("dns failed: Linux DNS routing"));
}

#[test]
fn stale_resolver_selection() {
    let e = |n: &str, f: bool, ok: bool| ResolverEntry {
        name: n.to_string(),
        path: format!("/etc/resolver/{n}"),
        is_file: f,
        points_here: ok,
    };
    let entries = vec![e("TEST", true, true), e("old.dev", true, true), e("dir", false, true), e("other", true, false)];
    assert_eq!(stale_resolvers(&entries, &vec!["test".to_string()]), vec!["/etc/resolver/old.dev"]);
}

#[test]
fn path_text() {
    assert_eq!(join_path("/a", "b"), "/a/b");
    assert_eq!(join_path("/a/", "b"), "/a/b");
    assert_eq!(join_path("", "b"), "b");
    assert_eq!(join_path("/a", "/b"), "/b");
    assert_eq!(file_name("/a/b.json").as_deref(), Some("b.json"));
    assert_eq!(file_name("a/b/./").as_deref(), Some("b"));
    assert_eq!(file_name("a/.."), None);
    assert_eq!(file_name("/"), None);
    assert_eq!(project_name_from_path("/"), "project");
    assert_eq!(tmp_path_for("/h/.domainest/projects.json"), "/h/.domainest/projects.json.tmp");
    assert_eq!(tmp_path_for("/h/state"), "/h/state.tmp");
    assert_eq!(tmp_path_for("/h/.hidden"), "/h/.hidden.tmp");
    assert_eq!(tmp_path_for("/h/a.b.c/"), "/h/a.b.c.tmp");
    assert!(is_blank(" \n\t"));
    assert!(!is_blank(" [] "));
    let s = Store::from_path("/h/p.json".to_string());
    assert_eq!(s.tmp_path(), "/h/p.json.tmp");
    let st = StateStore::from_path("/h/state.json".to_string());
    assert_eq!(st.tmp_path(), "/h/state.json.tmp");
    assert_eq!(st.path(), "/h/state.json");
}

fn proj(command: &str, args: &[&str]) -> Project {
    Project {
        id: 1,
        name: "n".into(),
        path: "/p".into(),
        domain: "n.test".into(),
        port: 3005,
        ssl: true,
        status: ProjectStatus::Stopped,
        command: command.into(),
        args: args.iter().map(|a| a.to_string()).collect(),
        pid: None,
    }
}

#[test]
fn dev_server_arguments() {
    let (a, env) = compute_command_args_and_env(&proj("pnpm", &["dev"]));
    assert_eq!(a, vec!["dev", "--", "--port", "3005"]);
    assert_eq!(env, vec![("PORT".to_string(), "3005".to_string()), ("HOST".to_string(), "127.0.0.1".to_string())]);
    let (a, _) = compute_command_args_and_env(&proj("NPM", &["run", "dev", "--", "--host"]));
    assert_eq!(a, vec!["run", "dev", "--", "--port", "3005", "--host"]);
    let (a, _) = compute_command_args_and_env(&proj("yarn", &["dev", "--port=1"]));
    assert_eq!(a, vec!["dev", "--port=1"]);
    let (a, _) = compute_command_args_and_env(&proj("cargo", &["run"]));
    assert_eq!(a, vec!["run"]);
    let (a, _) = compute_command_args_and_env(&proj("bun", &["-p", "9"]));
    assert_eq!(a, vec!["-p", "9"]);
}

#[test]
fn local_ca_state() {
    let mut s = AppStateFile::default();
    assert!(MkcertManager::needs_local_ca(&s));
    MkcertManager::record_local_ca(&mut s);
    assert!(!MkcertManager::needs_local_ca(&s));
}

#[test]
fn kept_resolvers_are_not_read() {
    let keep = vec!["test".to_string(), "shop.dev".to_string()];
    assert!(domainest::dnsmasq::is_kept_resolver("Shop.Dev", &keep));
    assert!(domainest::dnsmasq::is_kept_resolver("test", &keep));
    assert!(!domainest::dnsmasq::is_kept_resolver("other", &keep));
}
