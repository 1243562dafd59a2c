use domainest::dns::{
    answer_for_query, build_response, domains_from_disk, domains_of_projects,
    query_matches_dns_config, refresh_disk_domains, registered_project_domains,
    respond_to_packet, set_project_domains, DnsQuestion, DnsRequest, DnsState, PacketReply,
};
use hickory_proto::op::{Message, MessageType, OpCode, Query, ResponseCode};
use hickory_proto::rr::{Name, RecordType};
use domainest::models::{Project, ProjectStatus};

#[test]
fn zone_matching() {
    let mut state = DnsState::new();
    assert!(query_matches_dns_config(&state, "api.myapp.com.", "myapp.com"));
    assert!(!query_matches_dns_config(&state, "github.com.", "myapp.com"));
    assert!(query_matches_dns_config(&state, "app.test.", "test"));
    set_project_domains(&mut state, &vec!["be-brand.dev".to_string()]);
    assert!(query_matches_dns_config(&state, "be-brand.dev.", "test"));
}

#[test]
fn registered_domains_merge_disk_without_duplicates() {
    let mut state = DnsState::new();
    set_project_domains(&mut state, &vec!["a.dev".to_string(), "b.dev".to_string()]);
    refresh_disk_domains(
        &mut state,
        10,
        vec!["b.dev".to_string(), "c.dev".to_string(), "c.dev".to_string()],
    );
    assert_eq!(registered_project_domains(&state), vec!["a.dev", "b.dev", "c.dev"]);
    assert!(query_matches_dns_config(&state, "api.c.dev.", "test"));
}

#[test]
fn disk_cache_expires_after_two_seconds() {
    let mut state = DnsState::new();
    assert!(domains_from_disk(&state, 0).is_none());
    refresh_disk_domains(&mut state, 1000, vec!["x.dev".to_string()]);
    assert_eq!(domains_from_disk(&state, 2999).unwrap(), vec!["x.dev"]);
    assert!(domains_from_disk(&state, 3000).is_none());
}

fn project(domain: &str) -> Project {
    Project {
        id: 1,
        name: "p".to_string(),
        path: "/tmp/p".to_string(),
        domain: domain.to_string(),
        port: 3000,
        ssl: true,
        status: ProjectStatus::Stopped,
        command: "pnpm".to_string(),
        args: vec!["dev".to_string()],
        pid: None,
    }
}

#[test]
fn projects_file_domains_are_trimmed_and_lowercased() {
    let ps = vec![project(" My.Test "), project("   "), project("b.dev")];
    assert_eq!(domains_of_projects(&ps), vec!["my.test", "b.dev"]);
}

fn question(name: &str, record_type: u16) -> DnsQuestion {
    let trimmed = name.trim_end_matches('.');
    let labels: Vec<Vec<u8>> = if trimmed.is_empty() {
        Vec::new()
    } else {
        trimmed.split('.').map(|l| l.as_bytes().to_vec()).collect()
    };
    DnsQuestion { name: name.to_string(), labels, record_type, class: 1 }
}

#[test]
fn answers_only_a_queries_in_zone() {
    let state = DnsState::new();
    let q = question("App.Test.", 1);
    let a = answer_for_query(&state, &q).unwrap();
    assert_eq!(a.labels, vec![b"App".to_vec(), b"Test".to_vec()]);
    assert_eq!(a.ttl, 60);
    assert_eq!(a.address, [127, 0, 0, 1]);
    assert!(answer_for_query(&state, &question("app.test.", 28)).is_none());
    assert!(answer_for_query(&state, &question("example.com.", 1)).is_none());
}

#[test]
fn response_echoes_questions_and_answers_matches() {
    let state = DnsState::new();
    let req = DnsRequest {
        id: 4242,
        questions: vec![question("x.test.", 1), question("example.com.", 1), question("y.test.", 1)],
    };
    let r = build_response(&state, &req);
    assert_eq!(r.id, 4242);
    assert!(r.authoritative);
    assert_eq!(r.response_code, 0);
    assert_eq!(r.questions.len(), 3);
    assert_eq!(r.questions[1].name, "example.com.");
    assert_eq!(r.answers.len(), 2);
    assert_eq!(r.answers[0].labels, vec![b"x".to_vec(), b"test".to_vec()]);
    assert_eq!(r.answers[1].labels, vec![b"y".to_vec(), b"test".to_vec()]);
}

#[test]
fn zone_can_be_changed() {
    let mut state = DnsState::new();
    state.set_zone("myapp.com");
    assert!(answer_for_query(&state, &question("api.myapp.com.", 1)).is_some());
    assert!(answer_for_query(&state, &question("app.test.", 1)).is_none());
}

fn query_bytes(id: u16, names: &[(&str, RecordType)]) -> Vec<u8> {
    let mut m = Message::new();
    m.set_id(id);
    for (n, t) in names {
        m.add_query(Query::query(Name::from_ascii(n).unwrap(), *t));
    }
    m.to_vec().unwrap()
}

#[test]
fn datagram_gets_wire_response() {
    let mut state = DnsState::new();
    set_project_domains(&mut state, &vec!["be-brand.dev".to_string()]);
    let bytes = query_bytes(
        7,
        &[("App.test.", RecordType::A), ("github.com.", RecordType::A), ("be-brand.dev.", RecordType::AAAA), ("www.be-brand.dev.", RecordType::A)],
    );
    let out = match respond_to_packet(&state, &bytes) {
        PacketReply::Reply(v) => v,
        _ => panic!("expected a reply"),
    };
    let m = Message::from_vec(&out).unwrap();
    assert_eq!(m.id(), 7);
    assert_eq!(m.message_type(), MessageType::Response);
    assert_eq!(m.op_code(), OpCode::Query);
    assert!(m.authoritative());
    assert_eq!(m.response_code(), ResponseCode::NoError);
    assert_eq!(m.queries().len(), 4);
    assert_eq!(m.queries()[0].name().to_ascii(), "App.test.");
    assert_eq!(m.queries()[2].query_type(), RecordType::AAAA);
    assert_eq!(m.answers().len(), 2);
    assert_eq!(m.answers()[0].name().to_ascii(), "App.test.");
    assert_eq!(m.answers()[0].ttl(), 60);
    assert_eq!(m.answers()[0].record_type(), RecordType::A);
    assert_eq!(m.answers()[1].name().to_ascii(), "www.be-brand.dev.");
    let rdata = m.answers()[1].data().unwrap().to_string();
    assert_eq!(rdata, "127.0.0.1");
}

#[test]
fn garbage_datagram_is_ignored() {
    let state = DnsState::new();
    assert!(matches!(respond_to_packet(&state, &vec![1, 2, 3]), PacketReply::Ignore));
}

#[test]
fn names_below_registered_domains_and_replacement() {
    let mut state = DnsState::new();
    set_project_domains(&mut state, &vec!["be-brand.dev".to_string(), "shop.io".to_string()]);
    assert!(query_matches_dns_config(&state, "api.be-brand.dev.", "test"));
    assert!(query_matches_dns_config(&state, "api.shop.io", "test"));
    set_project_domains(&mut state, &vec!["shop.io".to_string()]);
    assert!(!query_matches_dns_config(&state, "api.be-brand.dev.", "test"));
    assert!(query_matches_dns_config(&state, "x.shop.io.", "test"));
}
