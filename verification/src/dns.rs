//! The embedded DNS server's decisions: which names it answers, and the
//! response it gives to a query message.
//!
//! The server answers `A` queries for names under the configured zone, or
//! under a registered project domain, with `127.0.0.1`.
use vstd::prelude::*;

use hickory_proto::op::{Message, MessageType, OpCode, Query};
use hickory_proto::rr::rdata::A;
use hickory_proto::rr::{Name, RData, Record};

use crate::domain_suffix::{domain_under_zone, is_under_zone};
use crate::models::Project;
use crate::text::{
    chars_eq, chars_of, clone_strings, is_ascii_text, lower, lower_text, string_of, texts, trim, trim_ws,
};

verus! {

/// Record type code of an IPv4 address record (`A`).
pub open spec fn record_type_a() -> u16 {
    1
}

/// Time to live, in seconds, of the answers the server gives.
pub open spec fn answer_ttl() -> u32 {
    60
}

/// The address the server listens on.
pub open spec fn dns_addr() -> Seq<char> {
    "127.0.0.1:53535"@
}

/// The address the server listens on (UDP).
pub fn dns_address() -> (r: String)
    ensures
        r@ == dns_addr(),
{
    "127.0.0.1:53535".to_string()
}

/// How long, in milliseconds, domains read from the projects file are
/// reused before the file is read again.
pub open spec fn disk_domains_ttl_ms() -> u64 {
    2000
}

/// The DNS server's configuration: the zone it serves, the project domains
/// it was told about, and the domains last read from the projects file.
pub struct DnsState {
    pub zone: String,
    pub project_domains: Vec<String>,
    pub disk_domains: Vec<String>,
    /// When the projects file was last read (milliseconds on a monotonic
    /// clock), if ever.
    pub disk_loaded_at_ms: Option<u64>,
}

impl DnsState {
    /// A server for the zone `test`, with no project domains and nothing read
    /// from disk yet.
    pub fn new() -> (s: DnsState)
        ensures
            s.zone@ == "test"@,
            s.project_domains@.len() == 0,
            s.disk_domains@.len() == 0,
            s.disk_loaded_at_ms is None,
    {
        DnsState {
            zone: "test".to_string(),
            project_domains: Vec::new(),
            disk_domains: Vec::new(),
            disk_loaded_at_ms: None,
        }
    }

    /// Sets the zone the server answers for.
    pub fn set_zone(&mut self, zone: &str)
        ensures
            final(self).zone@ == zone@,
            final(self).project_domains@ == old(self).project_domains@,
            final(self).disk_domains@ == old(self).disk_domains@,
            final(self).disk_loaded_at_ms == old(self).disk_loaded_at_ms,
    {
        self.zone = zone.to_string();
    }
}

/// Records the domains of the registered projects.
pub fn set_project_domains(state: &mut DnsState, domains: &Vec<String>)
    ensures
        final(state).project_domains@ == domains@,
        final(state).zone@ == old(state).zone@,
        final(state).disk_domains@ == old(state).disk_domains@,
        final(state).disk_loaded_at_ms == old(state).disk_loaded_at_ms,
{
    state.project_domains = clone_strings(domains);
}

/// `a` followed by the elements of `b` that are not already present, in
/// order.
pub open spec fn merged_unique(a: Seq<Seq<char>>, b: Seq<Seq<char>>) -> Seq<Seq<char>>
    decreases b.len(),
{
    if b.len() == 0 {
        a
    } else {
        let m = merged_unique(a, b.drop_last());
        if m.contains(b.last()) {
            m
        } else {
            m.push(b.last())
        }
    }
}

/// All domains the server knows: the registered ones, then those read from
/// disk that are not among them.
pub open spec fn known_domains(state: DnsState) -> Seq<Seq<char>> {
    merged_unique(texts(state.project_domains@), texts(state.disk_domains@))
}

fn contains_text(v: &Vec<String>, d: &String) -> (r: bool)
    ensures
        r == texts(v@).contains(d@),
{
    let dc = chars_of(d.as_str());
    let mut i: usize = 0;
    while i < v.len()
        invariant
            i <= v.len(),
            dc@ == d@,
            forall|k: int| 0 <= k < i ==> texts(v@)[k] != d@,
        decreases v.len() - i,
    {
        let c = chars_of(v[i].as_str());
        if chars_eq(&c, &dc) {
            assert(texts(v@)[i as int] == d@);
            return true;
        }
        i += 1;
    }
    false
}

/// The registered project domains followed by the new ones read from disk.
pub fn registered_project_domains(state: &DnsState) -> (r: Vec<String>)
    ensures
        texts(r@) == known_domains(*state),
{
    let mut domains = clone_strings(&state.project_domains);
    let disk = &state.disk_domains;
    let mut i: usize = 0;
    assert(texts(domains@) =~= merged_unique(texts(state.project_domains@), texts(disk@).take(0)));
    while i < disk.len()
        invariant
            i <= disk.len(),
            disk == &state.disk_domains,
            texts(domains@) == merged_unique(
                texts(state.project_domains@),
                texts(disk@).take(i as int),
            ),
        decreases disk.len() - i,
    {
        assert(texts(disk@).take(i + 1).drop_last() =~= texts(disk@).take(i as int));
        assert(texts(disk@).take(i + 1).last() == disk@[i as int]@);
        if !contains_text(&domains, &disk[i]) {
            let ghost prev = domains@;
            domains.push(disk[i].clone());
            assert(texts(domains@) =~= texts(prev).push(disk@[i as int]@));
        }
        i += 1;
    }
    assert(texts(disk@).take(disk.len() as int) =~= texts(disk@));
    domains
}

/// `name` is under `zone` or under one of `domains`.
pub open spec fn matches_config(name: Seq<char>, zone: Seq<char>, domains: Seq<Seq<char>>) -> bool {
    is_under_zone(name, zone) || exists|i: int|
        0 <= i < domains.len() && is_under_zone(name, #[trigger] domains[i])
}

/// Whether the server answers for `name` when serving `zone`: the name is
/// under the zone or under a known project domain.
pub fn query_matches_dns_config(state: &DnsState, name: &str, zone: &str) -> (r: bool)
    ensures
        r == matches_config(name@, zone@, known_domains(*state)),
{
    if domain_under_zone(name, zone) {
        return true;
    }
    let domains = registered_project_domains(state);
    let mut i: usize = 0;
    while i < domains.len()
        invariant
            i <= domains.len(),
            texts(domains@) == known_domains(*state),
            !is_under_zone(name@, zone@),
            forall|k: int| 0 <= k < i ==> !is_under_zone(name@, #[trigger] texts(domains@)[k]),
        decreases domains.len() - i,
    {
        if domain_under_zone(name, domains[i].as_str()) {
            assert(is_under_zone(name@, texts(domains@)[i as int]));
            return true;
        }
        i += 1;
    }
    false
}

/// The domains read from disk, if they were read less than the cache
/// lifetime ago; `None` when the projects file must be read again.
pub fn domains_from_disk(state: &DnsState, now_ms: u64) -> (r: Option<Vec<String>>)
    ensures
        match state.disk_loaded_at_ms {
            Some(t) => (t <= now_ms && now_ms - t < disk_domains_ttl_ms()) ==> (r matches Some(
                v,
            ) && v@ == state.disk_domains@),
            None => true,
        },
        r is Some <==> (state.disk_loaded_at_ms matches Some(t) && t <= now_ms && now_ms - t
            < disk_domains_ttl_ms()),
{
    match state.disk_loaded_at_ms {
        Some(t) => {
            if t <= now_ms && now_ms - t < 2000 {
                Some(clone_strings(&state.disk_domains))
            } else {
                None
            }
        },
        None => None,
    }
}

/// Stores the domains just read from disk and when they were read.
pub fn refresh_disk_domains(state: &mut DnsState, now_ms: u64, loaded: Vec<String>)
    ensures
        final(state).disk_domains@ == loaded@,
        final(state).disk_loaded_at_ms == Some(now_ms),
        final(state).zone@ == old(state).zone@,
        final(state).project_domains@ == old(state).project_domains@,
{
    state.disk_domains = loaded;
    state.disk_loaded_at_ms = Some(now_ms);
}

/// A project domain as the DNS server compares it: trimmed and lowercased.
pub open spec fn served_domain(d: Seq<char>) -> Seq<char> {
    lower_text(trim_ws(d))
}

/// The non-empty served domains of `ps`, in order.
pub open spec fn project_file_domains(ps: Seq<Project>) -> Seq<Seq<char>>
    decreases ps.len(),
{
    if ps.len() == 0 {
        Seq::empty()
    } else {
        let rest = project_file_domains(ps.drop_last());
        let d = served_domain(ps.last().domain@);
        if d.len() > 0 {
            rest.push(d)
        } else {
            rest
        }
    }
}

/// The domains the server takes from the projects file: each project's
/// domain trimmed and lowercased, empty ones dropped.
pub fn domains_of_projects(projects: &Vec<Project>) -> (r: Vec<String>)
    ensures
        texts(r@) == project_file_domains(projects@),
{
    let mut r: Vec<String> = Vec::new();
    let mut i: usize = 0;
    while i < projects.len()
        invariant
            i <= projects.len(),
            texts(r@) == project_file_domains(projects@.take(i as int)),
        decreases projects.len() - i,
    {
        assert(projects@.take(i + 1).drop_last() =~= projects@.take(i as int));
        let d = lower(&trim(&chars_of(projects[i].domain.as_str())));
        if d.len() > 0 {
            let ghost prev = r@;
            r.push(string_of(&d));
            assert(texts(r@) =~= texts(prev).push(d@));
        }
        i += 1;
    }
    assert(projects@.take(projects.len() as int) =~= projects@);
    r
}

/// One question of a DNS query: its name as raw labels and in ASCII form
/// (with its root dot), the record type and the class.
pub struct DnsQuestion {
    pub name: String,
    pub labels: Vec<Vec<u8>>,
    pub record_type: u16,
    pub class: u16,
}

/// A question as a value.
pub struct QuestionView {
    pub name: Seq<char>,
    pub labels: Seq<Seq<u8>>,
    pub record_type: u16,
    pub class: u16,
}

/// The raw labels of a name as values.
pub open spec fn label_views(labels: Seq<Vec<u8>>) -> Seq<Seq<u8>> {
    labels.map_values(|l: Vec<u8>| l@)
}

impl View for DnsQuestion {
    type V = QuestionView;

    open spec fn view(&self) -> QuestionView {
        QuestionView {
            name: self.name@,
            labels: label_views(self.labels@),
            record_type: self.record_type,
            class: self.class,
        }
    }
}

/// An IPv4 address record given in an answer: the owner name's raw labels,
/// the time to live and the address's four bytes.
pub struct DnsAnswer {
    pub labels: Vec<Vec<u8>>,
    pub ttl: u32,
    pub address: [u8; 4],
}

/// An answer as a value.
pub struct AnswerView {
    pub labels: Seq<Seq<u8>>,
    pub ttl: u32,
    pub address: Seq<u8>,
}

impl View for DnsAnswer {
    type V = AnswerView;

    open spec fn view(&self) -> AnswerView {
        AnswerView { labels: label_views(self.labels@), ttl: self.ttl, address: self.address@ }
    }
}

/// A query message: its id and questions.
pub struct DnsRequest {
    pub id: u16,
    pub questions: Vec<DnsQuestion>,
}

/// A query message as a value.
pub struct RequestView {
    pub id: u16,
    pub questions: Seq<QuestionView>,
}

impl View for DnsRequest {
    type V = RequestView;

    open spec fn view(&self) -> RequestView {
        RequestView { id: self.id, questions: self.questions@.map_values(|q: DnsQuestion| q@) }
    }
}

/// A response message to a standard query: its id, whether it is
/// authoritative, its response code, the questions echoed and the answers.
pub struct DnsResponse {
    pub id: u16,
    pub authoritative: bool,
    pub response_code: u16,
    pub questions: Vec<DnsQuestion>,
    pub answers: Vec<DnsAnswer>,
}

/// A response message as a value.
pub struct ResponseView {
    pub id: u16,
    pub authoritative: bool,
    pub response_code: u16,
    pub questions: Seq<QuestionView>,
    pub answers: Seq<AnswerView>,
}

impl View for DnsResponse {
    type V = ResponseView;

    open spec fn view(&self) -> ResponseView {
        ResponseView {
            id: self.id,
            authoritative: self.authoritative,
            response_code: self.response_code,
            questions: self.questions@.map_values(|q: DnsQuestion| q@),
            answers: self.answers@.map_values(|a: DnsAnswer| a@),
        }
    }
}

/// `127.0.0.1` as four bytes.
pub open spec fn loopback_v4() -> Seq<u8> {
    seq![127u8, 0u8, 0u8, 1u8]
}

/// The server answers `q`: it asks for an `A` record of a name under the
/// zone or under a known domain.
pub open spec fn answers_question(state: DnsState, q: QuestionView) -> bool {
    q.record_type == record_type_a() && matches_config(
        lower_text(q.name),
        state.zone@,
        known_domains(state),
    )
}

/// The answer given to `q`: its name `A 127.0.0.1`, with a TTL of 60 s.
pub open spec fn answer_to(q: QuestionView) -> AnswerView {
    AnswerView { labels: q.labels, ttl: answer_ttl(), address: loopback_v4() }
}

/// A copy of raw name labels.
fn copy_labels(labels: &Vec<Vec<u8>>) -> (r: Vec<Vec<u8>>)
    ensures
        label_views(r@) == label_views(labels@),
{
    let mut r: Vec<Vec<u8>> = Vec::new();
    let mut i: usize = 0;
    while i < labels.len()
        invariant
            i <= labels.len(),
            r@.len() == i,
            forall|k: int| 0 <= k < i ==> (#[trigger] r@[k])@ == labels@[k]@,
        decreases labels.len() - i,
    {
        let l = &labels[i];
        let mut c: Vec<u8> = Vec::new();
        let mut j: usize = 0;
        while j < l.len()
            invariant
                j <= l.len(),
                c@ == l@.take(j as int),
            decreases l.len() - j,
        {
            c.push(l[j]);
            j += 1;
            assert(c@ =~= l@.take(j as int));
        }
        assert(l@.take(l.len() as int) =~= l@);
        r.push(c);
        i += 1;
    }
    assert(label_views(r@) =~= label_views(labels@));
    r
}

/// A copy of a question.
fn copy_question(q: &DnsQuestion) -> (r: DnsQuestion)
    ensures
        r@ == q@,
{
    DnsQuestion {
        name: q.name.clone(),
        labels: copy_labels(&q.labels),
        record_type: q.record_type,
        class: q.class,
    }
}

/// The answer to `q`, if the server answers it.
pub fn answer_for_query(state: &DnsState, q: &DnsQuestion) -> (r: Option<DnsAnswer>)
    ensures
        r is Some <==> answers_question(*state, q@),
        r matches Some(a) ==> a@ == answer_to(q@),
{
    if q.record_type != 1 {
        return None;
    }
    let name = string_of(&lower(&chars_of(q.name.as_str())));
    if !query_matches_dns_config(state, name.as_str(), state.zone.as_str()) {
        return None;
    }
    let address: [u8; 4] = [127u8, 0u8, 0u8, 1u8];
    let a = DnsAnswer { labels: copy_labels(&q.labels), ttl: 60, address };
    assert(a@.address =~= loopback_v4());
    Some(a)
}

/// The questions of `qs` the server answers, in order.
pub open spec fn answered(state: DnsState, qs: Seq<QuestionView>) -> Seq<QuestionView> {
    qs.filter(|q: QuestionView| answers_question(state, q))
}

/// The response to a query: same id, authoritative, `NoError`, the
/// questions echoed, and one answer per question the server answers, in
/// order.
pub open spec fn response_to(state: DnsState, req: RequestView) -> ResponseView {
    ResponseView {
        id: req.id,
        authoritative: true,
        response_code: 0,
        questions: req.questions,
        answers: answered(state, req.questions).map_values(|q: QuestionView| answer_to(q)),
    }
}

/// Builds the response to a query.
pub fn build_response(state: &DnsState, req: &DnsRequest) -> (r: DnsResponse)
    ensures
        r@ == response_to(*state, req@),
{
    let ghost f = |q: QuestionView| answers_question(*state, q);
    let ghost qv = req@.questions;
    let qs = &req.questions;
    let mut questions: Vec<DnsQuestion> = Vec::new();
    let mut answers: Vec<DnsAnswer> = Vec::new();
    let mut i: usize = 0;
    while i < qs.len()
        invariant
            i <= qs.len(),
            qs == &req.questions,
            qv == qs@.map_values(|q: DnsQuestion| q@),
            f == (|q: QuestionView| answers_question(*state, q)),
            questions@.map_values(|q: DnsQuestion| q@) == qv.take(i as int),
            answers@.map_values(|a: DnsAnswer| a@) == qv.take(i as int).filter(f).map_values(
                |q: QuestionView| answer_to(q),
            ),
        decreases qs.len() - i,
    {
        let q = &qs[i];
        let ghost pre = qv.take(i as int);
        let ghost qs0 = questions@;
        let ghost as0 = answers@;
        questions.push(copy_question(q));
        assert(qv.take(i + 1).drop_last() =~= pre);
        assert(qv.take(i + 1).last() == q@);
        assert(questions@.map_values(|q: DnsQuestion| q@) =~= qs0.map_values(|q: DnsQuestion| q@).push(q@));
        assert(qv.take(i + 1) =~= pre.push(q@));
        proof {
            reveal_with_fuel(Seq::filter, 1);
        }
        match answer_for_query(state, q) {
            Some(a) => {
                answers.push(a);
                assert(qv.take(i + 1).filter(f) == pre.filter(f).push(q@));
                assert(answers@.map_values(|a: DnsAnswer| a@) =~= as0.map_values(|a: DnsAnswer| a@).push(answer_to(q@)));
                assert(pre.filter(f).push(q@).map_values(|q: QuestionView| answer_to(q)) =~= pre.filter(f).map_values(|q: QuestionView| answer_to(q)).push(answer_to(q@)));
            },
            None => {
                assert(qv.take(i + 1).filter(f) == pre.filter(f));
            },
        }
        i += 1;
    }
    assert(qv.take(qs.len() as int) =~= qv);
    let r = DnsResponse { id: req.id, authoritative: true, response_code: 0, questions, answers };
    assert(r@.questions == req@.questions);
    assert(r@ =~= response_to(*state, req@));
    r
}

/// The request a DNS message decodes to, if it decodes.
pub uninterp spec fn decoded_request(bytes: Seq<u8>) -> Option<RequestView>;

/// The bytes a response encodes to, if it encodes.
pub uninterp spec fn encoded_response(r: ResponseView) -> Option<Seq<u8>>;

/// Decodes a DNS message with hickory-proto's `Message::from_vec`, keeping
/// its id and, for each query, the name (`Name::to_ascii` and its raw
/// labels), the query type and the query class. Claimed: the result is a
/// function of the bytes alone; `None` exactly when decoding fails.
#[verifier::external_body]
fn decode_request(bytes: &Vec<u8>) -> (r: Option<DnsRequest>)
    ensures
        match r {
            Some(q) => decoded_request(bytes@) == Some(q@),
            None => decoded_request(bytes@) is None,
        },
{
    let m = Message::from_vec(bytes.as_slice()).ok()?;
    let questions = m.queries().iter().map(|q| DnsQuestion {
        name: q.name().to_ascii(),
        labels: q.name().iter().map(|l| l.to_vec()).collect(),
        record_type: u16::from(q.query_type()),
        class: u16::from(q.query_class()),
    });
    Some(DnsRequest { id: m.id(), questions: questions.collect() })
}

/// Encodes a response with hickory-proto: a `Message` of type `Response` and
/// op code `Query` with the given id, authoritative flag and response code,
/// the questions as `Query` values and the answers as `A` records of class
/// `IN`, then `Message::to_vec`. Claimed: the result is a function of the
/// response alone; `None` exactly when a name or the message cannot be
/// encoded.
#[verifier::external_body]
fn encode_response(r: &DnsResponse) -> (b: Option<Vec<u8>>)
    ensures
        match b {
            Some(v) => encoded_response(r@) == Some(v@),
            None => encoded_response(r@) is None,
        },
{
    let mut m = Message::new();
    m.set_id(r.id).set_message_type(MessageType::Response).set_op_code(OpCode::Query);
    m.set_authoritative(r.authoritative).set_response_code(r.response_code.into());
    for q in r.questions.iter() {
        let name = Name::from_labels(q.labels.clone()).ok()?;
        m.add_query(Query::query(name, q.record_type.into()).set_query_class(q.class.into()).clone());
    }
    for a in r.answers.iter() {
        let name = Name::from_labels(a.labels.clone()).ok()?;
        m.add_answer(Record::from_rdata(name, a.ttl, RData::A(A(a.address.into()))));
    }
    m.to_vec().ok()
}

/// What the server does with a datagram it received.
pub enum PacketReply {
    /// It is not a DNS message: nothing is sent.
    Ignore,
    /// The encoded response to send back.
    Reply(Vec<u8>),
    /// The response could not be encoded: the server stops.
    EncodeFailed,
}

/// The server's handling of one datagram: decode it, build the response,
/// encode it.
pub fn respond_to_packet(state: &DnsState, bytes: &Vec<u8>) -> (r: PacketReply)
    ensures
        match decoded_request(bytes@) {
            None => r is Ignore,
            Some(req) => match encoded_response(response_to(*state, req)) {
                Some(out) => r matches PacketReply::Reply(v) && v@ == out,
                None => r is EncodeFailed,
            },
        },
{
    match decode_request(bytes) {
        None => PacketReply::Ignore,
        Some(req) => {
            let resp = build_response(state, &req);
            match encode_response(&resp) {
                Some(v) => PacketReply::Reply(v),
                None => PacketReply::EncodeFailed,
            }
        },
    }
}

/// The merged list starts with `a`.
proof fn lemma_merged_prefix(a: Seq<Seq<char>>, b: Seq<Seq<char>>)
    ensures
        merged_unique(a, b).len() >= a.len(),
        forall|i: int| 0 <= i < a.len() ==> merged_unique(a, b)[i] == a[i],
    decreases b.len(),
{
    if b.len() > 0 {
        lemma_merged_prefix(a, b.drop_last());
    }
}

/// A registered project domain (without leading or trailing dots) is
/// answered for itself and for its fully qualified form, whatever the
/// zone.
pub proof fn law_registered_domain_answered(state: DnsState, d: Seq<char>, zone: Seq<char>)
    requires
        texts(state.project_domains@).contains(d),
        d.len() == 0 || (d[0] != '.' && d.last() != '.'),
    ensures
        matches_config(d, zone, known_domains(state)),
        matches_config(d.push('.'), zone, known_domains(state)),
{
    let a = texts(state.project_domains@);
    let k = choose|k: int| 0 <= k < a.len() && a[k] == d;
    lemma_merged_prefix(a, texts(state.disk_domains@));
    let m = known_domains(state);
    assert(m[k] == d);
    crate::domain_suffix::law_zone_under_itself(d);
    crate::domain_suffix::law_under_zone_ignores_root_dot(d, d);
    assert(is_under_zone(d, m[k]));
    assert(is_under_zone(d.push('.'), m[k]));
}

/// Setting the project domains makes each of them answered.
pub proof fn law_set_domains_then_answered(
    after: DnsState,
    domains: Seq<String>,
    i: int,
    zone: Seq<char>,
)
    requires
        after.project_domains@ == domains,
        0 <= i < domains.len(),
        domains[i]@.len() == 0 || (domains[i]@[0] != '.' && domains[i]@.last() != '.'),
    ensures
        matches_config(domains[i]@, zone, known_domains(after)),
{
    assert(texts(after.project_domains@)[i] == domains[i]@);
    law_registered_domain_answered(after, domains[i]@, zone);
}

/// A text is among the merged domains exactly when it is in either list.
proof fn lemma_merged_contains(a: Seq<Seq<char>>, b: Seq<Seq<char>>, x: Seq<char>)
    ensures
        merged_unique(a, b).contains(x) <==> (a.contains(x) || b.contains(x)),
    decreases b.len(),
{
    if b.len() > 0 {
        lemma_merged_contains(a, b.drop_last(), x);
        let m = merged_unique(a, b.drop_last());
        if b.drop_last().contains(x) {
            let k = choose|k: int| 0 <= k < b.drop_last().len() && b.drop_last()[k] == x;
            assert(b[k] == x);
        }
        if b.contains(x) && !b.drop_last().contains(x) {
            let k = choose|k: int| 0 <= k < b.len() && b[k] == x;
            if k < b.len() - 1 {
                assert(b.drop_last()[k] == x);
            }
        }
        if !m.contains(b.last()) {
            let n = m.push(b.last());
            if m.contains(x) {
                let k = choose|k: int| 0 <= k < m.len() && m[k] == x;
                assert(n[k] == x);
            }
            if n.contains(x) && x != b.last() {
                let k = choose|k: int| 0 <= k < n.len() && n[k] == x;
                assert(m[k] == x);
            }
            assert(n[m.len() as int] == b.last());
        }
    }
}

/// Setting the project domains replaces the earlier list: afterwards a name
/// is answered exactly when it is under the zone, under one of the new
/// domains, or under a domain read from the projects file.
pub proof fn law_set_domains_replaces(
    before: DnsState,
    after: DnsState,
    domains: Seq<String>,
    name: Seq<char>,
    zone: Seq<char>,
)
    requires
        after.project_domains@ == domains,
        after.disk_domains@ == before.disk_domains@,
    ensures
        matches_config(name, zone, known_domains(after)) <==> (is_under_zone(name, zone) || (exists|i: int| 0 <= i < domains.len() && is_under_zone(name, #[trigger] domains[i]@))
            || (exists|i: int|
            0 <= i < before.disk_domains@.len() && is_under_zone(
                name,
                #[trigger] before.disk_domains@[i]@,
            ))),
{
    let a = texts(domains);
    let b = texts(before.disk_domains@);
    let m = known_domains(after);
    if exists|i: int| 0 <= i < m.len() && is_under_zone(name, #[trigger] m[i]) {
        let i = choose|i: int| 0 <= i < m.len() && is_under_zone(name, #[trigger] m[i]);
        lemma_merged_contains(a, b, m[i]);
        assert(m.contains(m[i]));
        if a.contains(m[i]) {
            let k = choose|k: int| 0 <= k < a.len() && a[k] == m[i];
            assert(is_under_zone(name, domains[k]@));
        } else {
            let k = choose|k: int| 0 <= k < b.len() && b[k] == m[i];
            assert(is_under_zone(name, before.disk_domains@[k]@));
        }
    }
    if exists|i: int| 0 <= i < domains.len() && is_under_zone(name, #[trigger] domains[i]@) {
        let i = choose|i: int| 0 <= i < domains.len() && is_under_zone(name, #[trigger] domains[i]@);
        assert(a[i] == domains[i]@);
        assert(a.contains(domains[i]@));
        lemma_merged_contains(a, b, domains[i]@);
        let k = choose|k: int| 0 <= k < m.len() && m[k] == domains[i]@;
        assert(is_under_zone(name, m[k]));
    }
    if exists|i: int|
        0 <= i < before.disk_domains@.len() && is_under_zone(name, #[trigger] before.disk_domains@[i]@)
    {
        let i = choose|i: int|
            0 <= i < before.disk_domains@.len() && is_under_zone(
                name,
                #[trigger] before.disk_domains@[i]@,
            );
        assert(b[i] == before.disk_domains@[i]@);
        assert(b.contains(b[i]));
        lemma_merged_contains(a, b, b[i]);
        let k = choose|k: int| 0 <= k < m.len() && m[k] == b[i];
        assert(is_under_zone(name, m[k]));
    }
}

/// Every name below a registered project domain is answered, with or
/// without its root dot (`api.<domain>` and `api.<domain>.`), whatever the
/// zone. Stated for ASCII names and domains without leading or trailing
/// dots.
pub proof fn law_names_below_registered_domain_answered(
    state: DnsState,
    d: Seq<char>,
    label: Seq<char>,
    zone: Seq<char>,
)
    requires
        texts(state.project_domains@).contains(d),
        is_ascii_text(d),
        is_ascii_text(label),
        d.len() > 0,
        d[0] != '.',
        d.last() != '.',
    ensures
        matches_config(label + seq!['.'] + d, zone, known_domains(state)),
        matches_config((label + seq!['.'] + d).push('.'), zone, known_domains(state)),
{
    let a = texts(state.project_domains@);
    let k = choose|k: int| 0 <= k < a.len() && a[k] == d;
    lemma_merged_prefix(a, texts(state.disk_domains@));
    let m = known_domains(state);
    assert(m[k] == d);
    crate::domain_suffix::law_subdomain_under_zone(label, d);
    crate::domain_suffix::law_under_zone_ignores_root_dot(label + seq!['.'] + d, d);
    assert(is_under_zone(label + seq!['.'] + d, m[k]));
    assert(is_under_zone((label + seq!['.'] + d).push('.'), m[k]));
}

/// Every `A` question for a name under the served zone is answered with
/// `127.0.0.1`, whatever else the query asks.
pub proof fn law_zone_queries_answered(state: DnsState, req: RequestView, i: int)
    requires
        0 <= i < req.questions.len(),
        req.questions[i].record_type == record_type_a(),
        is_under_zone(lower_text(req.questions[i].name), state.zone@),
    ensures
        response_to(state, req).answers.contains(answer_to(req.questions[i])),
{
    broadcast use vstd::seq_lib::group_filter_ensures;

    let q = req.questions[i];
    assert(answers_question(state, q));
    let f = |q: QuestionView| answers_question(state, q);
    assert(req.questions.contains(q));
    assert(req.questions.filter(f).contains(q));
    let a = answered(state, req.questions);
    let k = choose|k: int| 0 <= k < a.len() && a[k] == q;
    let m = a.map_values(|q: QuestionView| answer_to(q));
    assert(m[k] == answer_to(q));
}

/// The server always answers with `NoError`, authoritatively, under the
/// query's id and echoing its questions, whether or not any question gets
/// an answer: a name it does not answer for is never reported as missing.
pub proof fn law_response_is_no_error(state: DnsState, req: RequestView)
    ensures
        response_to(state, req).response_code == 0,
        response_to(state, req).authoritative,
        response_to(state, req).id == req.id,
        response_to(state, req).questions == req.questions,
{
}

} // verus!
