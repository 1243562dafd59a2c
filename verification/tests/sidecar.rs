use domainest::sidecar::{
    caddy_reload_args, caddy_run_args, caddy_stop_args, host_target_triple, is_tool_build,
    mkcert_cert_args, parse_pidfile, push_bin_candidates, scan_dirs, search_dirs, search_paths,
    tool_filename, tool_missing, tool_output_ok,
};

#[test]
fn tool_filename_uses_host_triple() {
    let triple = host_target_triple("x86_64", "linux");
    let name = tool_filename("caddy", &triple);
    assert!(name.starts_with("caddy-"));
    assert!(!name.ends_with("-unknown"));
}

#[test]
fn triples_for_known_hosts() {
    assert_eq!(host_target_triple("aarch64", "macos"), "aarch64-apple-darwin");
    assert_eq!(host_target_triple("x86_64", "macos"), "x86_64-apple-darwin");
    assert_eq!(host_target_triple("aarch64", "linux"), "aarch64-unknown-linux-gnu");
    assert_eq!(host_target_triple("x86_64", "linux"), "x86_64-unknown-linux-gnu");
    assert_eq!(host_target_triple("riscv64", "freebsd"), "riscv64-unknown-freebsd");
    assert_eq!(tool_filename("mkcert", "x86_64-unknown-linux-gnu"), "mkcert-x86_64-unknown-linux-gnu");
}

#[test]
fn candidates_below_a_directory() {
    let mut v = Vec::new();
    push_bin_candidates(&mut v, "/opt/app", "caddy-x");
    assert_eq!(v, vec!["/opt/app/caddy-x", "/opt/app/bin/caddy-x", "/opt/app/src-tauri/bin/caddy-x"]);
    let all = search_paths(&vec!["/a/".to_string(), "b".to_string()], "t");
    assert_eq!(all, vec!["/a/t", "/a/bin/t", "/a/src-tauri/bin/t", "b/t", "b/bin/t", "b/src-tauri/bin/t"]);
    assert!(is_tool_build("caddy-aarch64-apple-darwin", "caddy"));
    assert!(!is_tool_build("caddyfile", "caddy"));
}

#[test]
fn tool_outcome_messages() {
    assert!(tool_output_ok(true, &b"out".to_vec(), &b"err".to_vec(), "x").is_ok());
    let e = tool_output_ok(false, &b" partial ".to_vec(), &b"boom\n".to_vec(), "caddy reload").unwrap_err();
    assert_eq!(e.message(), "caddy reload failed: partial boom");
    assert_eq!(tool_missing("caddy").message(), "caddy is not installed. Run `pnpm setup:deps` from the Domainest repo.");
}

#[test]
fn caddy_and_mkcert_arguments() {
    assert_eq!(caddy_stop_args(), vec!["stop", "--address", "127.0.0.1:2019"]);
    assert_eq!(
        caddy_run_args("/h/Caddyfile", "/h/caddy/caddy.pid"),
        vec!["run", "--config", "/h/Caddyfile", "--adapter", "caddyfile", "--pidfile", "/h/caddy/caddy.pid"]
    );
    assert_eq!(
        caddy_reload_args("/h/Caddyfile"),
        vec!["reload", "--config", "/h/Caddyfile", "--adapter", "caddyfile", "--address", "127.0.0.1:2019"]
    );
    assert_eq!(
        mkcert_cert_args("/c/a.test.pem", "/c/a.test-key.pem", "a.test"),
        vec!["-cert-file", "/c/a.test.pem", "-key-file", "/c/a.test-key.pem", "a.test"]
    );
}

#[test]
fn pidfile_parsing_matches_i32_parse() {
    for s in ["123", " 42\n", "+7", "-8", "2147483647", "-2147483648", "2147483648", "", "-", "1x", "99999999999999999999", "0"] {
        assert_eq!(parse_pidfile(s), s.trim().parse::<i32>().ok(), "input {s:?}");
    }
}

#[test]
fn tool_directories_in_search_order() {
    let exe = vec!["/app/bin".to_string(), "/app".to_string(), "/".to_string()];
    let cwd = vec!["/w".to_string(), "/".to_string()];
    assert_eq!(
        search_dirs(Some("/opt/tools".to_string()), &exe, &cwd),
        vec!["/opt/tools", "/app/bin", "/app", "/", "/w", "/"]
    );
    assert_eq!(search_dirs(None, &vec![], &cwd), vec!["/w", "/"]);
    assert_eq!(
        scan_dirs(None, &vec!["/app".to_string()], &vec!["/w".to_string()]),
        vec!["/app/bin", "/app/src-tauri/bin", "/w/src-tauri/bin", "/w/bin"]
    );
    assert_eq!(
        scan_dirs(Some("x".to_string()), &vec![], &vec!["/".to_string()]),
        vec!["x", "/src-tauri/bin", "/bin"]
    );
}
