use domainest::caddy::{needs_tls, render_managed_block, upsert_managed_block};
use domainest::models::{Project, ProjectStatus};

fn project(domain: &str, port: u16, ssl: bool, running: bool) -> Project {
    Project {
        id: 7,
        name: "n".to_string(),
        path: "/p".to_string(),
        domain: domain.to_string(),
        port,
        ssl,
        status: if running { ProjectStatus::Running } else { ProjectStatus::Stopped },
        command: "pnpm".to_string(),
        args: vec![],
        pid: None,
    }
}

const BEGIN: &str = "# --- BEGIN dev-domains managed ---";
const END: &str = "# --- END dev-domains managed ---";

#[test]
fn renders_only_running_projects() {
    let ps = vec![
        project("a.test", 3000, true, true),
        project("b.test", 3001, false, true),
        project("c.test", 3002, false, false),
        project("d.test", 3003, true, true),
    ];
    let tls = vec![
        Some(("/c/a.test.pem".to_string(), "/c/a.test-key.pem".to_string())),
        None,
        None,
        None,
    ];
    let out = render_managed_block(&ps, &tls);
    let expected = format!(
        "{BEGIN}\n\
a.test {{\n  reverse_proxy localhost:3000 {{\n    header_up Host localhost:3000\n    header_up -X-Forwarded-Host\n    header_up X-Forwarded-Proto https\n  }}\n  tls /c/a.test.pem /c/a.test-key.pem\n}}\n\n\
http://b.test {{\n  header {{\n    -Cross-Origin-Opener-Policy\n    -Origin-Agent-Cluster\n    -Cross-Origin-Embedder-Policy\n    -Cross-Origin-Resource-Policy\n    -Content-Security-Policy\n    -Content-Security-Policy-Report-Only\n    -Strict-Transport-Security\n  }}\n  reverse_proxy localhost:3001 {{\n    header_up Host localhost:3001\n    header_up -X-Forwarded-Host\n    header_up X-Forwarded-Proto http\n  }}\n}}\n\n\
{END}\n"
    );
    assert_eq!(out, expected);
}

#[test]
fn empty_block_when_nothing_runs() {
    let out = render_managed_block(&vec![], &vec![]);
    assert_eq!(out, format!("{BEGIN}\n{END}\n"));
}

#[test]
fn upsert_appends_when_no_block() {
    let m = format!("{BEGIN}\nX\n{END}\n");
    assert_eq!(upsert_managed_block("", &m), m);
    assert_eq!(upsert_managed_block("mine {}\n\n  ", &m), format!("mine {{}}\n\n{m}"));
}

#[test]
fn upsert_replaces_block_and_keeps_the_rest() {
    let m1 = format!("{BEGIN}\nold\n{END}\n");
    let m2 = format!("{BEGIN}\nnew\n{END}\n");
    let file = format!("head\n{m1}tail\n");
    assert_eq!(upsert_managed_block(&file, &m2), format!("head\n{m2}tail\n"));
    let no_newline = format!("head{m1}");
    assert_eq!(upsert_managed_block(&no_newline, &m2), format!("head\n{m2}"));
    let at_end = format!("{BEGIN}\nold\n{END}");
    assert_eq!(upsert_managed_block(&at_end, "Z"), "Z");
    assert_eq!(upsert_managed_block(&format!("{at_end}x"), "Z"), "Z\nx");
}

#[test]
fn writing_the_same_block_again_changes_nothing() {
    let m = render_managed_block(&vec![project("a.test", 3000, false, true)], &vec![None]);
    for existing in ["", "mine {}\n", "x"] {
        let once = upsert_managed_block(existing, &m);
        assert_eq!(upsert_managed_block(&once, &m), once);
        let twice = upsert_managed_block(&format!("{once}tail\n"), &m);
        assert_eq!(upsert_managed_block(&twice, &m), twice);
    }
    let keep_gap = format!("{BEGIN}\nold\n{END}\n\nafter\n");
    assert_eq!(upsert_managed_block(&keep_gap, &m), format!("{m}\nafter\n"));
}

#[test]
fn certificates_only_for_running_https_projects() {
    assert!(needs_tls(&project("a.test", 3000, true, true)));
    assert!(!needs_tls(&project("a.test", 3000, true, false)));
    assert!(!needs_tls(&project("a.test", 3000, false, true)));
}
