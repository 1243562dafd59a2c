//! The Caddyfile section Domainest manages: rendering the site blocks of the
//! running projects and splicing them into an existing Caddyfile.
use vstd::prelude::*;

use crate::error::{AppError, ErrorView};
use crate::models::{Project, ProjectStatus};
use crate::text::{
    chars_of, decimal, decimal_chars, find, find_chars, find_from, has_char, has_prefix, occurs_at,
    push_all, push_str, slice_chars, string_of, trim_end_ws,
};

verus! {

/// First line of the managed section.
pub open spec fn begin_marker() -> Seq<char> {
    "# --- BEGIN dev-domains managed ---"@
}

/// Last line of the managed section.
pub open spec fn end_marker() -> Seq<char> {
    "# --- END dev-domains managed ---"@
}

/// Address of Caddy's admin endpoint.
pub open spec fn admin_addr() -> Seq<char> {
    "127.0.0.1:2019"@
}

/// The address of Caddy's admin endpoint.
pub fn admin_address() -> (r: String)
    ensures
        r@ == admin_addr(),
{
    "127.0.0.1:2019".to_string()
}

/// The error when Caddy's admin endpoint at `addr` did not answer within
/// `timeout_ms` milliseconds.
pub fn admin_not_ready(addr: &str, timeout_ms: u64) -> (e: AppError)
    ensures
        e@ == ErrorView::ToolFailed(
            "caddy admin"@,
            "admin endpoint did not become ready at "@ + addr@ + " within "@ + decimal(
                timeout_ms as nat,
            ) + "ms"@,
        ),
{
    let mut v = chars_of("admin endpoint did not become ready at ");
    push_str(&mut v, addr);
    push_str(&mut v, " within ");
    let d = decimal_chars(timeout_ms);
    push_all(&mut v, &d);
    push_str(&mut v, "ms");
    AppError::ToolFailed { tool: "caddy admin".to_string(), message: string_of(&v) }
}

/// Site block for a project served over HTTPS with the given certificate
/// and key files.
pub open spec fn https_site(domain: Seq<char>, port: u16, cert: Seq<char>, key: Seq<char>) -> Seq<
    char,
> {
    let pt = decimal(port as nat);
    domain + " {\n  reverse_proxy localhost:"@ + pt + " {\n    header_up Host localhost:"@ + pt
        + "\n    header_up -X-Forwarded-Host\n    header_up X-Forwarded-Proto https\n  }\n  tls "@
        + cert + " "@ + key + "\n}\n\n"@
}

/// Site block for a project served over plain HTTP; it strips headers that
/// break HTTP-only development.
pub open spec fn http_site(domain: Seq<char>, port: u16) -> Seq<char> {
    let pt = decimal(port as nat);
    "http://"@ + domain
        + " {\n  header {\n    -Cross-Origin-Opener-Policy\n    -Origin-Agent-Cluster\n    -Cross-Origin-Embedder-Policy\n    -Cross-Origin-Resource-Policy\n    -Content-Security-Policy\n    -Content-Security-Policy-Report-Only\n    -Strict-Transport-Security\n  }\n  reverse_proxy localhost:"@
        + pt + " {\n    header_up Host localhost:"@ + pt
        + "\n    header_up -X-Forwarded-Host\n    header_up X-Forwarded-Proto http\n  }\n}\n\n"@
}

/// Whether the site block of `p` uses a certificate: the project runs
/// over HTTPS.
pub fn needs_tls(p: &Project) -> (r: bool)
    ensures
        r == (p.status == ProjectStatus::Running && p.ssl),
{
    p.status == ProjectStatus::Running && p.ssl
}

/// The site block for one project: none unless it is running; an HTTPS
/// project needs its certificate and key, else it gets none.
pub open spec fn site_block(p: Project, tls: Option<(String, String)>) -> Seq<char> {
    if p.status != ProjectStatus::Running {
        Seq::empty()
    } else if p.ssl {
        match tls {
            Some((cert, key)) => https_site(p.domain@, p.port, cert@, key@),
            None => Seq::empty(),
        }
    } else {
        http_site(p.domain@, p.port)
    }
}

/// The site blocks of `ps`, in order; `tls[i]` is the certificate and key
/// found for `ps[i]`.
pub open spec fn site_blocks(ps: Seq<Project>, tls: Seq<Option<(String, String)>>) -> Seq<char>
    decreases ps.len(),
{
    if ps.len() == 0 || tls.len() == 0 {
        Seq::empty()
    } else {
        site_blocks(ps.drop_last(), tls.drop_last()) + site_block(ps.last(), tls.last())
    }
}

/// The managed section for `ps`.
pub open spec fn managed_block(ps: Seq<Project>, tls: Seq<Option<(String, String)>>) -> Seq<char> {
    begin_marker() + "\n"@ + site_blocks(ps, tls) + end_marker() + "\n"@
}

/// `existing` with its managed section replaced by `managed`, or with
/// `managed` appended when it has none.
pub open spec fn upserted(existing: Seq<char>, managed: Seq<char>) -> Seq<char> {
    match (find(existing, begin_marker()), find(existing, end_marker())) {
        (Some(begin), Some(end)) => {
            let end_incl = end + end_marker().len();
            let head = line_start(existing.subrange(0, begin));
            if end_incl < existing.len() {
                let tail = existing.subrange(end_incl, existing.len() as int);
                if managed.len() > 0 && managed.last() == '\n' {
                    if tail[0] == '\n' {
                        head + managed + tail.drop_first()
                    } else {
                        head + managed + tail
                    }
                } else {
                    head + managed + seq!['\n'] + tail
                }
            } else {
                head + managed
            }
        },
        _ => {
            let t = trim_end_ws(existing);
            if t.len() > 0 {
                t + "\n\n"@ + managed
            } else {
                managed
            }
        },
    }
}

/// `head` ending at the start of a line: a newline is added unless it is
/// empty or already ends with one.
pub open spec fn line_start(head: Seq<char>) -> Seq<char> {
    if head.len() > 0 && head.last() != '\n' {
        head.push('\n')
    } else {
        head
    }
}

fn push_port(v: &mut Vec<char>, port: u16)
    ensures
        final(v)@ == old(v)@ + decimal(port as nat),
{
    let d = decimal_chars(port as u64);
    push_all(v, &d);
}

fn push_site_block(out: &mut Vec<char>, p: &Project, tls: &Option<(String, String)>)
    ensures
        final(out)@ == old(out)@ + site_block(*p, *tls),
{
    if p.status != ProjectStatus::Running {
        assert(old(out)@ + Seq::<char>::empty() =~= old(out)@);
        return ;
    }
    if p.ssl {
        match tls {
            Some((cert, key)) => {
                let ghost start = out@;
                push_str(out, p.domain.as_str());
                push_str(out, " {\n  reverse_proxy localhost:");
                push_port(out, p.port);
                push_str(out, " {\n    header_up Host localhost:");
                push_port(out, p.port);
                push_str(
                    out,
                    "\n    header_up -X-Forwarded-Host\n    header_up X-Forwarded-Proto https\n  }\n  tls ",
                );
                push_str(out, cert.as_str());
                push_str(out, " ");
                push_str(out, key.as_str());
                push_str(out, "\n}\n\n");
                assert(out@ =~= start + https_site(p.domain@, p.port, cert@, key@));
            },
            None => {
                assert(old(out)@ + Seq::<char>::empty() =~= old(out)@);
            },
        }
    } else {
        let ghost start = out@;
        push_str(out, "http://");
        push_str(out, p.domain.as_str());
        push_str(
            out,
            " {\n  header {\n    -Cross-Origin-Opener-Policy\n    -Origin-Agent-Cluster\n    -Cross-Origin-Embedder-Policy\n    -Cross-Origin-Resource-Policy\n    -Content-Security-Policy\n    -Content-Security-Policy-Report-Only\n    -Strict-Transport-Security\n  }\n  reverse_proxy localhost:",
        );
        push_port(out, p.port);
        push_str(out, " {\n    header_up Host localhost:");
        push_port(out, p.port);
        push_str(
            out,
            "\n    header_up -X-Forwarded-Host\n    header_up X-Forwarded-Proto http\n  }\n}\n\n",
        );
        assert(out@ =~= start + http_site(p.domain@, p.port));
    }
}

/// Renders the managed Caddyfile section for the running projects.
/// `tls[i]` is the certificate/key pair found for `projects[i]`, if any.
pub fn render_managed_block(projects: &Vec<Project>, tls: &Vec<Option<(String, String)>>) -> (r:
    String)
    requires
        tls.len() == projects.len(),
    ensures
        r@ == managed_block(projects@, tls@),
{
    let mut out: Vec<char> = Vec::new();
    push_str(&mut out, "# --- BEGIN dev-domains managed ---");
    push_str(&mut out, "\n");
    let ghost head = out@;
    let mut i: usize = 0;
    assert(site_blocks(projects@.take(0), tls@.take(0)) =~= Seq::<char>::empty());
    assert(out@ =~= head + site_blocks(projects@.take(0), tls@.take(0)));
    while i < projects.len()
        invariant
            i <= projects.len() == tls.len(),
            head == "# --- BEGIN dev-domains managed ---"@ + "\n"@,
            out@ == head + site_blocks(projects@.take(i as int), tls@.take(i as int)),
        decreases projects.len() - i,
    {
        push_site_block(&mut out, &projects[i], &tls[i]);
        assert(projects@.take(i + 1).drop_last() =~= projects@.take(i as int));
        assert(tls@.take(i + 1).drop_last() =~= tls@.take(i as int));
        i += 1;
    }
    assert(projects@.take(projects.len() as int) =~= projects@);
    assert(tls@.take(tls.len() as int) =~= tls@);
    push_str(&mut out, "# --- END dev-domains managed ---");
    push_str(&mut out, "\n");
    assert(out@ =~= managed_block(projects@, tls@));
    string_of(&out)
}

/// Replaces the managed section of `existing` with `managed`; a file with
/// no managed section gets it appended after a blank line. The line break
/// that ended the old section is not kept twice, so writing the same
/// section again leaves the file as it is.
pub fn upsert_managed_block(existing: &str, managed: &str) -> (r: String)
    ensures
        r@ == upserted(existing@, managed@),
{
    let e = chars_of(existing);
    let m = chars_of(managed);
    let b = chars_of("# --- BEGIN dev-domains managed ---");
    let en = chars_of("# --- END dev-domains managed ---");
    let fb = find_chars(&e, &b);
    let fe = find_chars(&e, &en);
    match (fb, fe) {
        (Some(begin), Some(end)) => {
            assert(fb == Some(begin) && fe == Some(end));
            proof {
                lemma_find_bounds(e@, b@);
                lemma_find_bounds(e@, en@);
            }
            let e_len = e.len();
            let en_len = en.len();
            assert(end + en_len <= e_len);
            let end_incl = end + en_len;
            let mut next = slice_chars(&e, 0, begin);
            let ghost head = next@;
            if next.len() > 0 && next[next.len() - 1] != '\n' {
                next.push('\n');
            }
            let ghost head2 = next@;
            push_all(&mut next, &m);
            if end_incl < e.len() {
                let ghost mid = next@;
                let mut from = end_incl;
                if m.len() > 0 && m[m.len() - 1] == '\n' {
                    if e[end_incl] == '\n' {
                        from = end_incl + 1;
                        assert(e@.subrange(from as int, e.len() as int) =~= e@.subrange(
                            end_incl as int,
                            e.len() as int,
                        ).drop_first());
                    }
                } else {
                    next.push('\n');
                }
                let tail = slice_chars(&e, from, e.len());
                push_all(&mut next, &tail);
            }
            string_of(&next)
        },
        _ => {
            let mut next = trim_end_only(&e);
            if next.len() > 0 {
                push_str(&mut next, "\n\n");
            }
            push_all(&mut next, &m);
            string_of(&next)
        },
    }
}

/// `str::trim_end` on a character vector.
fn trim_end_only(s: &Vec<char>) -> (r: Vec<char>)
    ensures
        r@ == trim_end_ws(s@),
{
    let mut k: usize = s.len();
    assert(s@.subrange(0, k as int) =~= s@);
    while k > 0 && crate::text::is_white_space_char(s[k - 1])
        invariant
            k <= s.len(),
            trim_end_ws(s@) == trim_end_ws(s@.subrange(0, k as int)),
        decreases k,
    {
        let ghost t = s@.subrange(0, k as int);
        assert(t.drop_last() =~= s@.subrange(0, k - 1));
        k -= 1;
    }
    slice_chars(s, 0, k)
}

/// Where `find` reports a match, the pattern fits inside the text there.
pub proof fn lemma_find_bounds(s: Seq<char>, pat: Seq<char>)
    ensures
        find(s, pat) matches Some(i) ==> 0 <= i && i + pat.len() <= s.len() && crate::text::occurs_at(
            s,
            pat,
            i,
        ),
{
    lemma_find_from_bounds(s, pat, 0);
}

proof fn lemma_find_from_bounds(s: Seq<char>, pat: Seq<char>, from: int)
    ensures
        crate::text::find_from(s, pat, from) matches Some(i) ==> from <= i && i + pat.len()
            <= s.len() && crate::text::occurs_at(s, pat, i),
    decreases s.len() + 1 - from,
{
    if from >= 0 && from + pat.len() <= s.len() && !crate::text::occurs_at(s, pat, from) {
        lemma_find_from_bounds(s, pat, from + 1);
    }
}

/// `find` gives the first occurrence.
proof fn lemma_find_from_first(s: Seq<char>, pat: Seq<char>, from: int, q: int)
    requires
        0 <= from <= q,
        occurs_at(s, pat, q),
        forall|j: int| from <= j < q ==> !occurs_at(s, pat, j),
    ensures
        find_from(s, pat, from) == Some(q),
    decreases q - from,
{
    if from < q {
        lemma_find_from_first(s, pat, from + 1, q);
    }
}

/// No occurrence from `from` on means `find_from` finds nothing, and
/// conversely.
proof fn lemma_find_from_none(s: Seq<char>, pat: Seq<char>, from: int, j: int)
    requires
        0 <= from <= j,
        find_from(s, pat, from) is None,
    ensures
        !occurs_at(s, pat, j),
    decreases j - from,
{
    if from < j && from + pat.len() <= s.len() {
        lemma_find_from_none(s, pat, from + 1, j);
    }
}

/// Before the position `find_from` reports, there is no occurrence.
proof fn lemma_find_from_before(s: Seq<char>, pat: Seq<char>, from: int, q: int, j: int)
    requires
        0 <= from <= j < q,
        find_from(s, pat, from) == Some(q),
    ensures
        !occurs_at(s, pat, j),
    decreases j - from,
{
    if from < j {
        lemma_find_from_before(s, pat, from + 1, q, j);
    }
}

/// An occurrence inside the middle part of a concatenation is an
/// occurrence in that part.
proof fn lemma_occurs_in_middle(h: Seq<char>, m: Seq<char>, t: Seq<char>, pat: Seq<char>, i: int)
    requires
        0 <= i,
        i + pat.len() <= m.len(),
    ensures
        occurs_at(h + m + t, pat, h.len() + i) == occurs_at(m, pat, i),
{
    let s = h + m + t;
    assert(s.subrange(h.len() + i, h.len() + i + pat.len()) =~= m.subrange(i, i + pat.len()));
}

/// An occurrence inside the first part of a concatenation is an occurrence
/// in that part.
proof fn lemma_occurs_in_head(h: Seq<char>, rest: Seq<char>, pat: Seq<char>, j: int)
    requires
        0 <= j,
        j + pat.len() <= h.len(),
    ensures
        occurs_at(h + rest, pat, j) == occurs_at(h, pat, j),
{
    assert((h + rest).subrange(j, j + pat.len()) =~= h.subrange(j, j + pat.len()));
}

/// A marker starts with `#` and has no other `#`.
pub open spec fn hash_led(pat: Seq<char>) -> bool {
    pat.len() > 0 && pat[0] == '#' && forall|i: int| 1 <= i < pat.len() ==> pat[i] != '#'
}

proof fn lemma_markers_hash_led()
    ensures
        hash_led(begin_marker()),
        hash_led(end_marker()),
{
    reveal_strlit("# --- BEGIN dev-domains managed ---");
    reveal_strlit("# --- END dev-domains managed ---");
}

/// In `h + m + t` with `m` starting with `#`, a `#`-led pattern absent from
/// `h` first occurs where it first occurs in `m`, if it occurs there at a
/// position `q` with nothing of `m` before it.
proof fn lemma_find_after_head(h: Seq<char>, m: Seq<char>, t: Seq<char>, pat: Seq<char>, q: int)
    requires
        hash_led(pat),
        m.len() > 0,
        m[0] == '#',
        find(h, pat) is None,
        find(m, pat) == Some(q),
        q + pat.len() <= m.len(),
    ensures
        find(h + m + t, pat) == Some(h.len() + q),
{
    let s = h + m + t;
    lemma_find_bounds(m, pat);
    lemma_occurs_in_middle(h, m, t, pat, q);
    assert forall|j: int| 0 <= j < h.len() + q implies !occurs_at(s, pat, j) by {
        if j < h.len() {
            if j + pat.len() <= h.len() {
                lemma_occurs_in_head(h, m + t, pat, j);
                assert(h + m + t =~= h + (m + t));
                lemma_find_from_none(h, pat, 0, j);
            } else {
                // the pattern would have to hold `m[0] == '#'` after its start
                let k = h.len() - j;
                if occurs_at(s, pat, j) {
                    assert(s.subrange(j, j + pat.len())[k] == s[h.len() as int]);
                    assert(s[h.len() as int] == m[0]);
                    assert(pat[k] == '#');
                }
            }
        } else {
            let i = j - h.len();
            lemma_find_from_before(m, pat, 0, q, i);
            lemma_occurs_in_middle(h, m, t, pat, i);
        }
    }
    lemma_find_from_first(s, pat, 0, h.len() + q);
}

/// A managed section as Domainest writes it: it starts with the begin
/// marker, its first end marker is on its last line, and it ends with a
/// newline.
pub open spec fn is_managed_section(m: Seq<char>) -> bool {
    &&& has_prefix(m, begin_marker())
    &&& find(m, end_marker()) == Some(m.len() - end_marker().len() - 1)
    &&& m.len() > end_marker().len()
    &&& m.last() == '\n'
}

/// Rewriting the managed section of a Caddyfile replaces exactly that
/// section: the text before it is kept (ending at the start of a line),
/// and the text after it is kept as it is.
pub proof fn law_upsert_replaces_section(h: Seq<char>, m1: Seq<char>, t: Seq<char>, m2: Seq<char>)
    requires
        find(h, begin_marker()) is None,
        find(h, end_marker()) is None,
        is_managed_section(m1),
        is_managed_section(m2),
    ensures
        upserted(h + m1 + t, m2) == line_start(h) + m2 + t,
{
    lemma_markers_hash_led();
    let b = begin_marker();
    let en = end_marker();
    let s = h + m1 + t;
    assert(m1[0] == '#') by {
        assert(m1.subrange(0, b.len() as int)[0] == b[0]);
    }
    assert(find(m1, b) == Some(0int)) by {
        assert(occurs_at(m1, b, 0));
        lemma_find_from_first(m1, b, 0, 0);
    }
    lemma_find_after_head(h, m1, t, b, 0);
    let q = m1.len() - en.len() - 1;
    lemma_find_after_head(h, m1, t, en, q);
    let end_incl = h.len() + q + en.len();
    assert(end_incl == h.len() + m1.len() - 1);
    assert(s.subrange(0, h.len() as int) =~= h);
    let tail = s.subrange(end_incl, s.len() as int);
    assert(tail =~= seq!['\n'] + t) by {
        assert(s[end_incl] == m1.last());
    }
    assert(tail.drop_first() =~= t);
    assert(m2.len() > 0);
}

/// No occurrence of `pat` from `from` on means `find_from` finds none.
proof fn lemma_find_from_absent(s: Seq<char>, pat: Seq<char>, from: int)
    requires
        0 <= from,
        forall|j: int| from <= j ==> !occurs_at(s, pat, j),
    ensures
        find_from(s, pat, from) is None,
    decreases s.len() + 1 - from,
{
    if from + pat.len() <= s.len() {
        lemma_find_from_absent(s, pat, from + 1);
    }
}

/// `c` does not occur in `s` from index `i` on; unfolded a bounded number
/// of times to read a literal.
spec fn lacks_from(s: Seq<char>, c: char, i: nat) -> bool
    decreases s.len() - i,
{
    i >= s.len() || (s[i as int] != c && lacks_from(s, c, i + 1))
}

proof fn lemma_lacks_from(s: Seq<char>, c: char, i: nat)
    requires
        lacks_from(s, c, i),
    ensures
        forall|k: int| i <= k < s.len() ==> s[k] != c,
    decreases s.len() - i,
{
    if i < s.len() {
        lemma_lacks_from(s, c, i + 1);
    }
}

/// The markers are single lines.
proof fn lemma_markers_one_line()
    ensures
        forall|k: int| 0 <= k < begin_marker().len() ==> begin_marker()[k] != '\n',
        forall|k: int| 0 <= k < end_marker().len() ==> end_marker()[k] != '\n',
        begin_marker().len() > 0,
        end_marker().len() > 0,
{
    reveal_strlit("# --- BEGIN dev-domains managed ---");
    reveal_strlit("# --- END dev-domains managed ---");
    let b = begin_marker();
    let e = end_marker();
    assert(lacks_from(b, '\n', 34)) by {
        reveal_with_fuel(lacks_from, 2);
    }
    assert(lacks_from(b, '\n', 17)) by {
        reveal_with_fuel(lacks_from, 19);
    }
    assert(lacks_from(b, '\n', 0)) by {
        reveal_with_fuel(lacks_from, 19);
    }
    assert(lacks_from(e, '\n', 32)) by {
        reveal_with_fuel(lacks_from, 2);
    }
    assert(lacks_from(e, '\n', 16)) by {
        reveal_with_fuel(lacks_from, 18);
    }
    assert(lacks_from(e, '\n', 0)) by {
        reveal_with_fuel(lacks_from, 18);
    }
    lemma_lacks_from(b, '\n', 0);
    lemma_lacks_from(e, '\n', 0);
}

/// A single-line pattern absent from `p` is absent from `p` followed by
/// line breaks, and from any prefix of `p`.
proof fn lemma_absent_in_lines(p: Seq<char>, k: int, n: nat, pat: Seq<char>)
    requires
        0 <= k <= p.len(),
        find(p, pat) is None,
        pat.len() > 0,
        forall|i: int| 0 <= i < pat.len() ==> pat[i] != '\n',
    ensures
        find(p.subrange(0, k) + Seq::new(n, |i: int| '\n'), pat) is None,
{
    let q = p.subrange(0, k);
    let x = q + Seq::new(n, |i: int| '\n');
    assert forall|j: int| 0 <= j implies !occurs_at(x, pat, j) by {
        if occurs_at(x, pat, j) {
            if j + pat.len() <= k {
                assert(x.subrange(j, j + pat.len()) =~= p.subrange(j, j + pat.len()));
                lemma_find_from_none(p, pat, 0, j);
            } else {
                let i = if j < k { k - j } else { 0 };
                assert(x.subrange(j, j + pat.len())[i] == x[j + i]);
                assert(x[j + i] == '\n');
            }
        }
    }
    lemma_find_from_absent(x, pat, 0);
}

proof fn lemma_trim_end_ws_prefix(s: Seq<char>)
    ensures
        trim_end_ws(s).len() <= s.len(),
        trim_end_ws(s) == s.subrange(0, trim_end_ws(s).len() as int),
    decreases s.len(),
{
    if s.len() > 0 && crate::text::is_white_space(s.last()) {
        lemma_trim_end_ws_prefix(s.drop_last());
        assert(s.drop_last().subrange(0, trim_end_ws(s).len() as int) =~= s.subrange(
            0,
            trim_end_ws(s).len() as int,
        ));
    } else {
        assert(s.subrange(0, s.len() as int) =~= s);
    }
}

/// Writing a managed section a second time leaves the Caddyfile as the
/// first write left it, for a file that held a managed section (with no
/// marker before it).
pub proof fn law_upsert_same_section_twice(h: Seq<char>, m1: Seq<char>, t: Seq<char>, m2: Seq<char>)
    requires
        find(h, begin_marker()) is None,
        find(h, end_marker()) is None,
        is_managed_section(m1),
        is_managed_section(m2),
    ensures
        upserted(upserted(h + m1 + t, m2), m2) == upserted(h + m1 + t, m2),
{
    law_upsert_replaces_section(h, m1, t, m2);
    lemma_markers_one_line();
    let n: nat = if h.len() > 0 && h.last() != '\n' { 1 } else { 0 };
    let h2 = line_start(h);
    assert(h2 =~= h.subrange(0, h.len() as int) + Seq::new(n, |i: int| '\n'));
    lemma_absent_in_lines(h, h.len() as int, n, begin_marker());
    lemma_absent_in_lines(h, h.len() as int, n, end_marker());
    law_upsert_replaces_section(h2, m2, t, m2);
    assert(line_start(h2) == h2);
}

/// Writing a managed section into a Caddyfile without markers, and then
/// writing it again, gives what the first write gave.
pub proof fn law_upsert_fresh_file_twice(e: Seq<char>, m: Seq<char>)
    requires
        find(e, begin_marker()) is None,
        find(e, end_marker()) is None,
        is_managed_section(m),
    ensures
        upserted(upserted(e, m), m) == upserted(e, m),
{
    lemma_markers_one_line();
    reveal_strlit("\n\n");
    let t = trim_end_ws(e);
    lemma_trim_end_ws_prefix(e);
    let n: nat = if t.len() > 0 { 2 } else { 0 };
    let h = e.subrange(0, t.len() as int) + Seq::new(n, |i: int| '\n');
    assert(upserted(e, m) == h + m) by {
        if t.len() > 0 {
            assert(h =~= t + "\n\n"@);
        } else {
            assert(h =~= Seq::<char>::empty());
            assert(h + m =~= m);
        }
    }
    lemma_absent_in_lines(e, t.len() as int, n, begin_marker());
    lemma_absent_in_lines(e, t.len() as int, n, end_marker());
    law_upsert_replaces_section(h, m, Seq::empty(), m);
    assert(h + m + Seq::<char>::empty() =~= h + m);
    assert(line_start(h) == h) by {
        if h.len() > 0 {
            assert(h.last() == '\n');
        }
    }
}

/// `s` holds no `#`.
pub open spec fn hash_free(s: Seq<char>) -> bool {
    !has_char(s, '#')
}

/// No `#` from index `i` of `s` on; unfolded a bounded number of times to
/// read a literal.
spec fn hash_free_from(s: Seq<char>, i: nat) -> bool
    decreases s.len() - i,
{
    i >= s.len() || (s[i as int] != '#' && hash_free_from(s, i + 1))
}

proof fn lemma_hash_free_from(s: Seq<char>, i: nat)
    requires
        hash_free_from(s, i),
    ensures
        forall|k: int| i <= k < s.len() ==> s[k] != '#',
    decreases s.len() - i,
{
    if i < s.len() {
        lemma_hash_free_from(s, i + 1);
    }
}

proof fn lemma_hash_free_concat(a: Seq<char>, b: Seq<char>)
    requires
        hash_free(a),
        hash_free(b),
    ensures
        hash_free(a + b),
{
    assert forall|i: int| 0 <= i < (a + b).len() implies (a + b)[i] != '#' by {
        if i < a.len() {
            assert(!(a[i] == '#'));
        } else {
            assert(!(b[i - a.len()] == '#'));
        }
    }
}

proof fn lemma_decimal_hash_free(n: nat)
    ensures
        hash_free(decimal(n)),
    decreases n,
{
    if n < 10 {
        assert(decimal(n)[0] != '#');
    } else {
        lemma_decimal_hash_free(n / 10);
        assert(crate::text::digit_char(n % 10) != '#');
        assert forall|i: int| 0 <= i < decimal(n).len() implies decimal(n)[i] != '#' by {
            if i < decimal(n / 10).len() {
                assert(!(decimal(n / 10)[i] == '#'));
            }
        }
    }
}
/// The fixed texts of the site blocks hold no `#`.
proof fn lemma_site_literals_hash_free()
    ensures
        hash_free(" {\n  reverse_proxy localhost:"@),
        hash_free(" {\n    header_up Host localhost:"@),
        hash_free("\n    header_up -X-Forwarded-Host\n    header_up X-Forwarded-Proto https\n  }\n  tls "@),
        hash_free(" "@),
        hash_free("\n}\n\n"@),
        hash_free("http://"@),
        hash_free(" {\n  header {\n    -Cross-Origin-Opener-Policy\n    -Origin-Agent-Cluster\n    -Cross-Origin-Embedder-Policy\n    -Cross-Origin-Resource-Policy\n    -Content-Security-Policy\n    -Content-Security-Policy-Report-Only\n    -Strict-Transport-Security\n  }\n  reverse_proxy localhost:"@),
        hash_free("\n    header_up -X-Forwarded-Host\n    header_up X-Forwarded-Proto http\n  }\n}\n\n"@),
        hash_free("\n"@),
{
    reveal_strlit(" {\n  reverse_proxy localhost:");
    assert(hash_free_from(" {\n  reverse_proxy localhost:"@, 29)) by {
        reveal_with_fuel(hash_free_from, 22);
    }
    assert(hash_free_from(" {\n  reverse_proxy localhost:"@, 20)) by {
        reveal_with_fuel(hash_free_from, 22);
    }
    assert(hash_free_from(" {\n  reverse_proxy localhost:"@, 0)) by {
        reveal_with_fuel(hash_free_from, 22);
    }
    lemma_hash_free_from(" {\n  reverse_proxy localhost:"@, 0);
    reveal_strlit(" {\n    header_up Host localhost:");
    assert(hash_free_from(" {\n    header_up Host localhost:"@, 32)) by {
        reveal_with_fuel(hash_free_from, 22);
    }
    assert(hash_free_from(" {\n    header_up Host localhost:"@, 20)) by {
        reveal_with_fuel(hash_free_from, 22);
    }
    assert(hash_free_from(" {\n    header_up Host localhost:"@, 0)) by {
        reveal_with_fuel(hash_free_from, 22);
    }
    lemma_hash_free_from(" {\n    header_up Host localhost:"@, 0);
    reveal_strlit("\n    header_up -X-Forwarded-Host\n    header_up X-Forwarded-Proto https\n  }\n  tls ");
    assert(hash_free_from("\n    header_up -X-Forwarded-Host\n    header_up X-Forwarded-Proto https\n  }\n  tls "@, 81)) by {
        reveal_with_fuel(hash_free_from, 22);
    }
    assert(hash_free_from("\n    header_up -X-Forwarded-Host\n    header_up X-Forwarded-Proto https\n  }\n  tls "@, 80)) by {
        reveal_with_fuel(hash_free_from, 22);
    }
    assert(hash_free_from("\n    header_up -X-Forwarded-Host\n    header_up X-Forwarded-Proto https\n  }\n  tls "@, 60)) by {
        reveal_with_fuel(hash_free_from, 22);
    }
    assert(hash_free_from("\n    header_up -X-Forwarded-Host\n    header_up X-Forwarded-Proto https\n  }\n  tls "@, 40)) by {
        reveal_with_fuel(hash_free_from, 22);
    }
    assert(hash_free_from("\n    header_up -X-Forwarded-Host\n    header_up X-Forwarded-Proto https\n  }\n  tls "@, 20)) by {
        reveal_with_fuel(hash_free_from, 22);
    }
    assert(hash_free_from("\n    header_up -X-Forwarded-Host\n    header_up X-Forwarded-Proto https\n  }\n  tls "@, 0)) by {
        reveal_with_fuel(hash_free_from, 22);
    }
    lemma_hash_free_from("\n    header_up -X-Forwarded-Host\n    header_up X-Forwarded-Proto https\n  }\n  tls "@, 0);
    reveal_strlit(" ");
    assert(hash_free_from(" "@, 1)) by {
        reveal_with_fuel(hash_free_from, 22);
    }
    assert(hash_free_from(" "@, 0)) by {
        reveal_with_fuel(hash_free_from, 22);
    }
    lemma_hash_free_from(" "@, 0);
    reveal_strlit("\n}\n\n");
    assert(hash_free_from("\n}\n\n"@, 4)) by {
        reveal_with_fuel(hash_free_from, 22);
    }
    assert(hash_free_from("\n}\n\n"@, 0)) by {
        reveal_with_fuel(hash_free_from, 22);
    }
    lemma_hash_free_from("\n}\n\n"@, 0);
    reveal_strlit("http://");
    assert(hash_free_from("http://"@, 7)) by {
        reveal_with_fuel(hash_free_from, 22);
    }
    assert(hash_free_from("http://"@, 0)) by {
        reveal_with_fuel(hash_free_from, 22);
    }
    lemma_hash_free_from("http://"@, 0);
    reveal_strlit(" {\n  header {\n    -Cross-Origin-Opener-Policy\n    -Origin-Agent-Cluster\n    -Cross-Origin-Embedder-Policy\n    -Cross-Origin-Resource-Policy\n    -Content-Security-Policy\n    -Content-Security-Policy-Report-Only\n    -Strict-Transport-Security\n  }\n  reverse_proxy localhost:");
    assert(hash_free_from(" {\n  header {\n    -Cross-Origin-Opener-Policy\n    -Origin-Agent-Cluster\n    -Cross-Origin-Embedder-Policy\n    -Cross-Origin-Resource-Policy\n    -Content-Security-Policy\n    -Content-Security-Policy-Report-Only\n    -Strict-Transport-Security\n  }\n  reverse_proxy localhost:"@, 271)) by {
        reveal_with_fuel(hash_free_from, 22);
    }
    assert(hash_free_from(" {\n  header {\n    -Cross-Origin-Opener-Policy\n    -Origin-Agent-Cluster\n    -Cross-Origin-Embedder-Policy\n    -Cross-Origin-Resource-Policy\n    -Content-Security-Policy\n    -Content-Security-Policy-Report-Only\n    -Strict-Transport-Security\n  }\n  reverse_proxy localhost:"@, 260)) by {
        reveal_with_fuel(hash_free_from, 22);
    }
    assert(hash_free_from(" {\n  header {\n    -Cross-Origin-Opener-Policy\n    -Origin-Agent-Cluster\n    -Cross-Origin-Embedder-Policy\n    -Cross-Origin-Resource-Policy\n    -Content-Security-Policy\n    -Content-Security-Policy-Report-Only\n    -Strict-Transport-Security\n  }\n  reverse_proxy localhost:"@, 240)) by {
        reveal_with_fuel(hash_free_from, 22);
    }
    assert(hash_free_from(" {\n  header {\n    -Cross-Origin-Opener-Policy\n    -Origin-Agent-Cluster\n    -Cross-Origin-Embedder-Policy\n    -Cross-Origin-Resource-Policy\n    -Content-Security-Policy\n    -Content-Security-Policy-Report-Only\n    -Strict-Transport-Security\n  }\n  reverse_proxy localhost:"@, 220)) by {
        reveal_with_fuel(hash_free_from, 22);
    }
    assert(hash_free_from(" {\n  header {\n    -Cross-Origin-Opener-Policy\n    -Origin-Agent-Cluster\n    -Cross-Origin-Embedder-Policy\n    -Cross-Origin-Resource-Policy\n    -Content-Security-Policy\n    -Content-Security-Policy-Report-Only\n    -Strict-Transport-Security\n  }\n  reverse_proxy localhost:"@, 200)) by {
        reveal_with_fuel(hash_free_from, 22);
    }
    assert(hash_free_from(" {\n  header {\n    -Cross-Origin-Opener-Policy\n    -Origin-Agent-Cluster\n    -Cross-Origin-Embedder-Policy\n    -Cross-Origin-Resource-Policy\n    -Content-Security-Policy\n    -Content-Security-Policy-Report-Only\n    -Strict-Transport-Security\n  }\n  reverse_proxy localhost:"@, 180)) by {
        reveal_with_fuel(hash_free_from, 22);
    }
    assert(hash_free_from(" {\n  header {\n    -Cross-Origin-Opener-Policy\n    -Origin-Agent-Cluster\n    -Cross-Origin-Embedder-Policy\n    -Cross-Origin-Resource-Policy\n    -Content-Security-Policy\n    -Content-Security-Policy-Report-Only\n    -Strict-Transport-Security\n  }\n  reverse_proxy localhost:"@, 160)) by {
        reveal_with_fuel(hash_free_from, 22);
    }
    assert(hash_free_from(" {\n  header {\n    -Cross-Origin-Opener-Policy\n    -Origin-Agent-Cluster\n    -Cross-Origin-Embedder-Policy\n    -Cross-Origin-Resource-Policy\n    -Content-Security-Policy\n    -Content-Security-Policy-Report-Only\n    -Strict-Transport-Security\n  }\n  reverse_proxy localhost:"@, 140)) by {
        reveal_with_fuel(hash_free_from, 22);
    }
    assert(hash_free_from(" {\n  header {\n    -Cross-Origin-Opener-Policy\n    -Origin-Agent-Cluster\n    -Cross-Origin-Embedder-Policy\n    -Cross-Origin-Resource-Policy\n    -Content-Security-Policy\n    -Content-Security-Policy-Report-Only\n    -Strict-Transport-Security\n  }\n  reverse_proxy localhost:"@, 120)) by {
        reveal_with_fuel(hash_free_from, 22);
    }
    assert(hash_free_from(" {\n  header {\n    -Cross-Origin-Opener-Policy\n    -Origin-Agent-Cluster\n    -Cross-Origin-Embedder-Policy\n    -Cross-Origin-Resource-Policy\n    -Content-Security-Policy\n    -Content-Security-Policy-Report-Only\n    -Strict-Transport-Security\n  }\n  reverse_proxy localhost:"@, 100)) by {
        reveal_with_fuel(hash_free_from, 22);
    }
    assert(hash_free_from(" {\n  header {\n    -Cross-Origin-Opener-Policy\n    -Origin-Agent-Cluster\n    -Cross-Origin-Embedder-Policy\n    -Cross-Origin-Resource-Policy\n    -Content-Security-Policy\n    -Content-Security-Policy-Report-Only\n    -Strict-Transport-Security\n  }\n  reverse_proxy localhost:"@, 80)) by {
        reveal_with_fuel(hash_free_from, 22);
    }
    assert(hash_free_from(" {\n  header {\n    -Cross-Origin-Opener-Policy\n    -Origin-Agent-Cluster\n    -Cross-Origin-Embedder-Policy\n    -Cross-Origin-Resource-Policy\n    -Content-Security-Policy\n    -Content-Security-Policy-Report-Only\n    -Strict-Transport-Security\n  }\n  reverse_proxy localhost:"@, 60)) by {
        reveal_with_fuel(hash_free_from, 22);
    }
    assert(hash_free_from(" {\n  header {\n    -Cross-Origin-Opener-Policy\n    -Origin-Agent-Cluster\n    -Cross-Origin-Embedder-Policy\n    -Cross-Origin-Resource-Policy\n    -Content-Security-Policy\n    -Content-Security-Policy-Report-Only\n    -Strict-Transport-Security\n  }\n  reverse_proxy localhost:"@, 40)) by {
        reveal_with_fuel(hash_free_from, 22);
    }
    assert(hash_free_from(" {\n  header {\n    -Cross-Origin-Opener-Policy\n    -Origin-Agent-Cluster\n    -Cross-Origin-Embedder-Policy\n    -Cross-Origin-Resource-Policy\n    -Content-Security-Policy\n    -Content-Security-Policy-Report-Only\n    -Strict-Transport-Security\n  }\n  reverse_proxy localhost:"@, 20)) by {
        reveal_with_fuel(hash_free_from, 22);
    }
    assert(hash_free_from(" {\n  header {\n    -Cross-Origin-Opener-Policy\n    -Origin-Agent-Cluster\n    -Cross-Origin-Embedder-Policy\n    -Cross-Origin-Resource-Policy\n    -Content-Security-Policy\n    -Content-Security-Policy-Report-Only\n    -Strict-Transport-Security\n  }\n  reverse_proxy localhost:"@, 0)) by {
        reveal_with_fuel(hash_free_from, 22);
    }
    lemma_hash_free_from(" {\n  header {\n    -Cross-Origin-Opener-Policy\n    -Origin-Agent-Cluster\n    -Cross-Origin-Embedder-Policy\n    -Cross-Origin-Resource-Policy\n    -Content-Security-Policy\n    -Content-Security-Policy-Report-Only\n    -Strict-Transport-Security\n  }\n  reverse_proxy localhost:"@, 0);
    reveal_strlit("\n    header_up -X-Forwarded-Host\n    header_up X-Forwarded-Proto http\n  }\n}\n\n");
    assert(hash_free_from("\n    header_up -X-Forwarded-Host\n    header_up X-Forwarded-Proto http\n  }\n}\n\n"@, 77)) by {
        reveal_with_fuel(hash_free_from, 22);
    }
    assert(hash_free_from("\n    header_up -X-Forwarded-Host\n    header_up X-Forwarded-Proto http\n  }\n}\n\n"@, 60)) by {
        reveal_with_fuel(hash_free_from, 22);
    }
    assert(hash_free_from("\n    header_up -X-Forwarded-Host\n    header_up X-Forwarded-Proto http\n  }\n}\n\n"@, 40)) by {
        reveal_with_fuel(hash_free_from, 22);
    }
    assert(hash_free_from("\n    header_up -X-Forwarded-Host\n    header_up X-Forwarded-Proto http\n  }\n}\n\n"@, 20)) by {
        reveal_with_fuel(hash_free_from, 22);
    }
    assert(hash_free_from("\n    header_up -X-Forwarded-Host\n    header_up X-Forwarded-Proto http\n  }\n}\n\n"@, 0)) by {
        reveal_with_fuel(hash_free_from, 22);
    }
    lemma_hash_free_from("\n    header_up -X-Forwarded-Host\n    header_up X-Forwarded-Proto http\n  }\n}\n\n"@, 0);
    reveal_strlit("\n");
    assert(hash_free_from("\n"@, 1)) by {
        reveal_with_fuel(hash_free_from, 22);
    }
    assert(hash_free_from("\n"@, 0)) by {
        reveal_with_fuel(hash_free_from, 22);
    }
    lemma_hash_free_from("\n"@, 0);
}

/// No domain of `ps`, and no certificate or key path of `tls`, holds a `#`.
pub open spec fn site_texts_hash_free(ps: Seq<Project>, tls: Seq<Option<(String, String)>>) -> bool {
    &&& forall|i: int| 0 <= i < ps.len() ==> hash_free(#[trigger] ps[i].domain@)
    &&& forall|i: int|
        0 <= i < tls.len() ==> (#[trigger] tls[i] matches Some(ck) ==> hash_free(ck.0@)
            && hash_free(ck.1@))
}

proof fn lemma_site_block_hash_free(p: Project, tls: Option<(String, String)>)
    requires
        hash_free(p.domain@),
        tls matches Some(ck) ==> hash_free(ck.0@) && hash_free(ck.1@),
    ensures
        hash_free(site_block(p, tls)),
{
    lemma_site_literals_hash_free();
    let pt = decimal(p.port as nat);
    lemma_decimal_hash_free(p.port as nat);
    if p.status != ProjectStatus::Running {
    } else if p.ssl {
        if let Some((cert, key)) = tls {
            let d = p.domain@;
            lemma_hash_free_concat(d, " {\n  reverse_proxy localhost:"@);
            let s1 = d + " {\n  reverse_proxy localhost:"@;
            lemma_hash_free_concat(s1, pt);
            lemma_hash_free_concat(s1 + pt, " {\n    header_up Host localhost:"@);
            let s2 = s1 + pt + " {\n    header_up Host localhost:"@;
            lemma_hash_free_concat(s2, pt);
            let c = "\n    header_up -X-Forwarded-Host\n    header_up X-Forwarded-Proto https\n  }\n  tls "@;
            lemma_hash_free_concat(s2 + pt, c);
            lemma_hash_free_concat(s2 + pt + c, cert@);
            lemma_hash_free_concat(s2 + pt + c + cert@, " "@);
            lemma_hash_free_concat(s2 + pt + c + cert@ + " "@, key@);
            lemma_hash_free_concat(s2 + pt + c + cert@ + " "@ + key@, "\n}\n\n"@);
        }
    } else {
        let g = " {\n  header {\n    -Cross-Origin-Opener-Policy\n    -Origin-Agent-Cluster\n    -Cross-Origin-Embedder-Policy\n    -Cross-Origin-Resource-Policy\n    -Content-Security-Policy\n    -Content-Security-Policy-Report-Only\n    -Strict-Transport-Security\n  }\n  reverse_proxy localhost:"@;
        let h = "\n    header_up -X-Forwarded-Host\n    header_up X-Forwarded-Proto http\n  }\n}\n\n"@;
        let s0 = "http://"@ + p.domain@;
        lemma_hash_free_concat("http://"@, p.domain@);
        lemma_hash_free_concat(s0, g);
        lemma_hash_free_concat(s0 + g, pt);
        lemma_hash_free_concat(s0 + g + pt, " {\n    header_up Host localhost:"@);
        let s1 = s0 + g + pt + " {\n    header_up Host localhost:"@;
        lemma_hash_free_concat(s1, pt);
        lemma_hash_free_concat(s1 + pt, h);
    }
}

proof fn lemma_site_blocks_hash_free(ps: Seq<Project>, tls: Seq<Option<(String, String)>>)
    requires
        site_texts_hash_free(ps, tls),
    ensures
        hash_free(site_blocks(ps, tls)),
    decreases ps.len(),
{
    if ps.len() > 0 && tls.len() > 0 {
        let ps0 = ps.drop_last();
        let tls0 = tls.drop_last();
        assert forall|i: int| 0 <= i < ps0.len() implies hash_free(#[trigger] ps0[i].domain@) by {
            assert(ps0[i] == ps[i]);
        }
        assert forall|i: int| 0 <= i < tls0.len() implies (#[trigger] tls0[i] matches Some(ck)
            ==> hash_free(ck.0@) && hash_free(ck.1@)) by {
            assert(tls0[i] == tls[i]);
        }
        lemma_site_blocks_hash_free(ps0, tls0);
        assert(hash_free(ps[ps.len() - 1].domain@));
        assert(tls[tls.len() - 1] matches Some(ck) ==> hash_free(ck.0@) && hash_free(ck.1@));
        lemma_site_block_hash_free(ps.last(), tls.last());
        lemma_hash_free_concat(site_blocks(ps0, tls0), site_block(ps.last(), tls.last()));
    }
}

/// The section `render_managed_block` writes is a managed section, so a
/// later rewrite recognizes and replaces it, as long as no domain,
/// certificate path or key path in it holds a `#`.
pub proof fn law_rendered_block_is_managed(ps: Seq<Project>, tls: Seq<Option<(String, String)>>)
    requires
        site_texts_hash_free(ps, tls),
    ensures
        is_managed_section(managed_block(ps, tls)),
{
    lemma_markers_hash_led();
    reveal_strlit("# --- BEGIN dev-domains managed ---");
    reveal_strlit("# --- END dev-domains managed ---");
    reveal_strlit("\n");
    let b = begin_marker();
    let en = end_marker();
    let s = site_blocks(ps, tls);
    lemma_site_blocks_hash_free(ps, tls);
    let m = managed_block(ps, tls);
    assert(m =~= b + "\n"@ + s + en + "\n"@);
    let p: int = (b.len() + 1 + s.len()) as int;
    assert(m.subrange(0, b.len() as int) =~= b);
    assert(m.subrange(p, p + en.len()) =~= en);
    assert(occurs_at(m, en, p));
    assert forall|j: int| 0 <= j < p implies !occurs_at(m, en, j) by {
        if occurs_at(m, en, j) {
            assert(m.subrange(j, j + en.len())[0] == en[0]);
            assert(m[j] == '#');
            if j == 0 {
                assert(m.subrange(0, en.len() as int)[6] == en[6]);
                assert(m[6] == b[6]);
            } else if j < b.len() {
                assert(m[j] == b[j]);
            } else if j == b.len() {
                assert(m[j] == '\n');
            } else {
                assert(m[j] == s[j - b.len() - 1]);
                assert(!(s[j - b.len() - 1] == '#'));
            }
        }
    }
    lemma_find_from_first(m, en, 0, p);
    assert(m.last() == '\n');
}

/// Writing the Caddyfile again replaces the section written before and
/// keeps the user's text around it: the text before it (ending at the
/// start of a line) and the text after it as they are.
pub proof fn law_rewrite_replaces_rendered_block(
    h: Seq<char>,
    t: Seq<char>,
    ps1: Seq<Project>,
    tls1: Seq<Option<(String, String)>>,
    ps2: Seq<Project>,
    tls2: Seq<Option<(String, String)>>,
)
    requires
        find(h, begin_marker()) is None,
        find(h, end_marker()) is None,
        site_texts_hash_free(ps1, tls1),
        site_texts_hash_free(ps2, tls2),
    ensures
        upserted(h + managed_block(ps1, tls1) + t, managed_block(ps2, tls2)) == line_start(h)
            + managed_block(ps2, tls2) + t,
{
    law_rendered_block_is_managed(ps1, tls1);
    law_rendered_block_is_managed(ps2, tls2);
    law_upsert_replaces_section(h, managed_block(ps1, tls1), t, managed_block(ps2, tls2));
}

/// Writing the same rendered section twice leaves the Caddyfile as the
/// first write left it, for a file without markers or with one managed
/// section (and no marker before it).
pub proof fn law_rewrite_same_rendered_block_twice(
    e: Seq<char>,
    h: Seq<char>,
    m1: Seq<char>,
    t: Seq<char>,
    ps: Seq<Project>,
    tls: Seq<Option<(String, String)>>,
)
    requires
        site_texts_hash_free(ps, tls),
        (find(e, begin_marker()) is None && find(e, end_marker()) is None) || (e == h + m1 + t
            && find(h, begin_marker()) is None && find(h, end_marker()) is None
            && is_managed_section(m1)),
    ensures
        upserted(upserted(e, managed_block(ps, tls)), managed_block(ps, tls)) == upserted(
            e,
            managed_block(ps, tls),
        ),
{
    law_rendered_block_is_managed(ps, tls);
    if find(e, begin_marker()) is None && find(e, end_marker()) is None {
        law_upsert_fresh_file_twice(e, managed_block(ps, tls));
    } else {
        law_upsert_same_section_twice(h, m1, t, managed_block(ps, tls));
    }
}

} // verus!
