//! System DNS wiring: the dnsmasq snippet, the macOS split-DNS resolver
//! files Domainest keeps, and the administrator scripts that change them.
use vstd::prelude::*;

use crate::domain_suffix::{host_covered_by_zone_resolver, is_under_zone};
use crate::error::{AppError, ErrorView};
use crate::text::{
    chars_eq, chars_of, lower, lower_text, push_all, push_str, split_char, string_of, texts,
    trim, trim_end_char, trim_end_matches, trim_start_char, trim_start_matches, trim_ws,
    utf8_lossy, utf8_lossy_text,
};

verus! {

/// A zone as the resolver setup uses it: leading dots dropped, lowercased.
pub open spec fn resolver_zone(zone: Seq<char>) -> Seq<char> {
    lower_text(trim_start_char(zone, '.'))
}

/// A project domain as a resolver name: trimmed, trailing dots dropped,
/// lowercased.
pub open spec fn resolver_host(domain: Seq<char>) -> Seq<char> {
    lower_text(trim_end_char(trim_ws(domain), '.'))
}

/// Text of the dnsmasq snippet for `suffix`.
pub open spec fn dnsmasq_text(suffix: Seq<char>) -> Seq<char> {
    "address=/."@ + trim_start_char(suffix, '.') + "/127.0.0.1\nlisten-address=127.0.0.1\nbind-interfaces\n"@
}

/// The dnsmasq snippet sending `*.suffix` to 127.0.0.1.
pub fn dnsmasq_config(domain_suffix: &str) -> (r: String)
    ensures
        r@ == dnsmasq_text(domain_suffix@),
{
    let mut v: Vec<char> = Vec::new();
    push_str(&mut v, "address=/.");
    let s = trim_start_matches(&chars_of(domain_suffix), '.');
    push_all(&mut v, &s);
    push_str(&mut v, "/127.0.0.1\nlisten-address=127.0.0.1\nbind-interfaces\n");
    string_of(&v)
}

/// The zone used for system DNS setup.
pub fn system_zone(global_zone: &str) -> (r: String)
    ensures
        r@ == resolver_zone(global_zone@),
{
    string_of(&lower(&trim_start_matches(&chars_of(global_zone), '.')))
}

/// The resolver names Domainest needs, in the order it installs them: the
/// zone first, then each project host not already covered by the zone.
pub open spec fn resolver_names(zone: Seq<char>, domains: Seq<Seq<char>>) -> Seq<Seq<char>>
    decreases domains.len(),
{
    if domains.len() == 0 {
        seq![resolver_zone(zone)]
    } else {
        let rest = resolver_names(zone, domains.drop_last());
        let h = resolver_host(domains.last());
        if h.len() == 0 || is_under_zone(h, resolver_zone(zone)) {
            rest
        } else {
            rest.push(h)
        }
    }
}

/// The resolver files to install (and keep) for `zone` and the project
/// domains, in order.
pub fn resolver_plan(global_zone: &str, project_domains: &Vec<String>) -> (r: Vec<String>)
    ensures
        texts(r@) == resolver_names(global_zone@, texts(project_domains@)),
{
    let zone = system_zone(global_zone);
    let mut names: Vec<String> = Vec::new();
    names.push(system_zone(global_zone));
    let ghost ds = texts(project_domains@);
    assert(texts(names@) =~= resolver_names(global_zone@, ds.take(0)));
    let mut i: usize = 0;
    while i < project_domains.len()
        invariant
            i <= project_domains.len(),
            ds == texts(project_domains@),
            zone@ == resolver_zone(global_zone@),
            texts(names@) == resolver_names(global_zone@, ds.take(i as int)),
        decreases project_domains.len() - i,
    {
        assert(ds.take(i + 1).drop_last() =~= ds.take(i as int));
        assert(ds.take(i + 1).last() == project_domains@[i as int]@);
        let hc = lower(&trim_end_matches(&trim(&chars_of(project_domains[i].as_str())), '.'));
        let host = string_of(&hc);
        if hc.len() > 0 && !host_covered_by_zone_resolver(host.as_str(), zone.as_str()) {
            let ghost prev = names@;
            names.push(host);
            assert(texts(names@) =~= texts(prev).push(resolver_host(ds[i as int])));
        }
        i += 1;
    }
    assert(ds.take(project_domains.len() as int) =~= ds);
    names
}

/// Path of the resolver file for `name`.
pub open spec fn resolver_file(name: Seq<char>) -> Seq<char> {
    "/etc/resolver/"@ + lower_text(trim_start_char(name, '.'))
}

/// The path of the resolver file for `resolver_name`.
pub fn resolver_path(resolver_name: &str) -> (r: String)
    ensures
        r@ == resolver_file(resolver_name@),
{
    let mut v: Vec<char> = Vec::new();
    push_str(&mut v, "/etc/resolver/");
    let n = lower(&trim_start_matches(&chars_of(resolver_name), '.'));
    push_all(&mut v, &n);
    string_of(&v)
}

/// `s` with each `"` written as `\"`.
pub open spec fn escape_quotes(s: Seq<char>) -> Seq<char>
    decreases s.len(),
{
    if s.len() == 0 {
        Seq::empty()
    } else {
        let rest = escape_quotes(s.drop_last());
        if s.last() == '"' {
            rest + seq!['\\', '"']
        } else {
            rest.push(s.last())
        }
    }
}

/// `s` with each `\` doubled and each `"` written as `\"`.
pub open spec fn escape_backslashes_and_quotes(s: Seq<char>) -> Seq<char>
    decreases s.len(),
{
    if s.len() == 0 {
        Seq::empty()
    } else {
        let rest = escape_backslashes_and_quotes(s.drop_last());
        if s.last() == '\\' {
            rest + seq!['\\', '\\']
        } else if s.last() == '"' {
            rest + seq!['\\', '"']
        } else {
            rest.push(s.last())
        }
    }
}

fn push_escaped(out: &mut Vec<char>, s: &Vec<char>, backslashes: bool)
    ensures
        final(out)@ == old(out)@ + (if backslashes {
            escape_backslashes_and_quotes(s@)
        } else {
            escape_quotes(s@)
        }),
{
    let ghost start = out@;
    let mut i: usize = 0;
    assert(s@.take(0) =~= Seq::<char>::empty());
    assert(out@ =~= start + Seq::<char>::empty());
    while i < s.len()
        invariant
            i <= s.len(),
            out@ == start + (if backslashes {
                escape_backslashes_and_quotes(s@.take(i as int))
            } else {
                escape_quotes(s@.take(i as int))
            }),
        decreases s.len() - i,
    {
        let c = s[i];
        assert(s@.take(i + 1).drop_last() =~= s@.take(i as int));
        assert(s@.take(i + 1).last() == c);
        if backslashes && c == '\\' {
            out.push('\\');
            out.push('\\');
        } else if c == '"' {
            out.push('\\');
            out.push('"');
        } else {
            out.push(c);
        }
        assert(out@ =~= start + (if backslashes {
            escape_backslashes_and_quotes(s@.take(i + 1))
        } else {
            escape_quotes(s@.take(i + 1))
        }));
        i += 1;
    }
    assert(s@.take(s.len() as int) =~= s@);
}

/// Shell script that installs a resolver file pointing at the embedded DNS
/// server (127.0.0.1, port 53535).
pub open spec fn resolver_install_text(path: Seq<char>) -> Seq<char> {
    "mkdir -p /etc/resolver && printf '%s\\n' 'nameserver 127.0.0.1' 'port 53535' > \""@
        + escape_quotes(path) + "\""@
}

/// The shell script writing the resolver file at `resolver_path`.
pub fn resolver_install_script(resolver_path: &str) -> (r: String)
    ensures
        r@ == resolver_install_text(resolver_path@),
{
    let mut v: Vec<char> = Vec::new();
    push_str(
        &mut v,
        "mkdir -p /etc/resolver && printf '%s\\n' 'nameserver 127.0.0.1' 'port 53535' > \"",
    );
    push_escaped(&mut v, &chars_of(resolver_path), false);
    push_str(&mut v, "\"");
    string_of(&v)
}

/// AppleScript source that runs `shell_script` with administrator
/// privileges.
pub open spec fn admin_script_text(shell_script: Seq<char>) -> Seq<char> {
    "do shell script \""@ + escape_backslashes_and_quotes(shell_script)
        + "\" with administrator privileges"@
}

/// The `osascript -e` argument that runs `shell_script` as administrator.
pub fn admin_script_source(shell_script: &str) -> (r: String)
    ensures
        r@ == admin_script_text(shell_script@),
{
    let mut v: Vec<char> = Vec::new();
    push_str(&mut v, "do shell script \"");
    push_escaped(&mut v, &chars_of(shell_script), true);
    push_str(&mut v, "\" with administrator privileges");
    string_of(&v)
}

/// The outcome of an administrator script run: success, or `ToolFailed`
/// for `osascript` with its decoded and trimmed standard error.
pub fn admin_script_outcome(success: bool, stderr: &Vec<u8>) -> (r: Result<(), AppError>)
    ensures
        success <==> r is Ok,
        r matches Err(e) ==> e@ == ErrorView::ToolFailed(
            "osascript"@,
            trim_ws(utf8_lossy_text(stderr@)),
        ),
{
    if success {
        return Ok(());
    }
    let err = chars_of(utf8_lossy(stderr).as_str());
    let m = trim(&err);
    Err(AppError::ToolFailed { tool: "osascript".to_string(), message: string_of(&m) })
}

/// A resolver file line as it is compared: trimmed and lowercased.
pub open spec fn normalized_line(l: Seq<char>) -> Seq<char> {
    lower_text(trim_ws(l))
}

/// Some line of `contents` reads `target` once normalized.
pub open spec fn has_line(contents: Seq<char>, target: Seq<char>) -> bool {
    exists|i: int|
        0 <= i < split_char(contents, '\n').len() && normalized_line(
            #[trigger] split_char(contents, '\n')[i],
        ) == target
}

/// A resolver file of Domainest's: it names 127.0.0.1 and port 53535.
pub open spec fn resolver_text_ok(contents: Seq<char>) -> bool {
    has_line(contents, "nameserver 127.0.0.1"@) && has_line(contents, "port 53535"@)
}

/// Whether the resolver file text points at Domainest's DNS server.
pub fn resolver_contents_ok(contents: &str) -> (r: bool)
    ensures
        r == resolver_text_ok(contents@),
{
    let c = chars_of(contents);
    let ns = chars_of("nameserver 127.0.0.1");
    let port = chars_of("port 53535");
    let mut cur: Vec<char> = Vec::new();
    let mut has_ns = false;
    let mut has_port = false;
    let ghost mut done: Seq<Seq<char>> = seq![];
    let mut i: usize = 0;
    while i < c.len()
        invariant
            i <= c.len(),
            ns@ == "nameserver 127.0.0.1"@,
            port@ == "port 53535"@,
            done.push(cur@) == split_char(c@.take(i as int), '\n'),
            has_ns == exists|k: int|
                0 <= k < done.len() && normalized_line(#[trigger] done[k]) == ns@,
            has_port == exists|k: int|
                0 <= k < done.len() && normalized_line(#[trigger] done[k]) == port@,
        decreases c.len() - i,
    {
        assert(c@.take(i + 1).drop_last() =~= c@.take(i as int));
        proof {
            crate::text::lemma_split_nonempty(c@.take(i as int), '\n');
        }
        if c[i] == '\n' {
            let l = lower(&trim(&cur));
            let ghost prev = done;
            if chars_eq(&l, &ns) {
                has_ns = true;
            }
            if chars_eq(&l, &port) {
                has_port = true;
            }
            proof {
                done = done.push(cur@);
                assert(done[done.len() - 1] == cur@);
                assert forall|k: int| 0 <= k < prev.len() implies done[k] == prev[k] by {}
            }
            cur = Vec::new();
            i += 1;
            assert(done.push(cur@) =~= split_char(c@.take(i as int), '\n'));
        } else {
            let ch = c[i];
            cur.push(ch);
            i += 1;
            assert(done.push(cur@) =~= split_char(c@.take(i as int), '\n'));
        }
    }
    assert(c@.take(c.len() as int) =~= c@);
    let l = lower(&trim(&cur));
    let ghost prev = done;
    if chars_eq(&l, &ns) {
        has_ns = true;
    }
    if chars_eq(&l, &port) {
        has_port = true;
    }
    proof {
        done = done.push(cur@);
        assert(done[done.len() - 1] == cur@);
        assert forall|k: int| 0 <= k < prev.len() implies done[k] == prev[k] by {}
    }
    has_ns && has_port
}

/// A file found in the resolver directory.
pub struct ResolverEntry {
    /// The file name.
    pub name: String,
    /// The file's path.
    pub path: String,
    /// It is a regular file.
    pub is_file: bool,
    /// Its text points at Domainest's DNS server.
    pub points_here: bool,
}

/// Resolver files that Domainest wrote but no longer needs: regular files
/// not in `keep` (compared lowercased) that point at its DNS server.
pub open spec fn is_stale(e: ResolverEntry, keep: Seq<Seq<char>>) -> bool {
    e.is_file && !keep.contains(lower_text(e.name@)) && e.points_here
}

/// Whether the resolver file named `name` is one Domainest keeps
/// (compared lowercased), so that its contents need no reading.
pub fn is_kept_resolver(name: &str, keep: &Vec<String>) -> (r: bool)
    ensures
        r == texts(keep@).contains(lower_text(name@)),
{
    let l = string_of(&lower(&chars_of(name)));
    contains_text_value(keep, &l)
}

/// The paths of the stale resolver files among `entries`, in order.
pub fn stale_resolvers(entries: &Vec<ResolverEntry>, keep: &Vec<String>) -> (r: Vec<String>)
    ensures
        texts(r@) == entries@.filter(|e: ResolverEntry| is_stale(e, texts(keep@))).map_values(
            |e: ResolverEntry| e.path@,
        ),
{
    let ghost f = |e: ResolverEntry| is_stale(e, texts(keep@));
    let mut r: Vec<String> = Vec::new();
    let mut i: usize = 0;
    while i < entries.len()
        invariant
            i <= entries.len(),
            f == (|e: ResolverEntry| is_stale(e, texts(keep@))),
            texts(r@) == entries@.take(i as int).filter(f).map_values(|e: ResolverEntry| e.path@),
        decreases entries.len() - i,
    {
        let e = &entries[i];
        assert(entries@.take(i + 1).drop_last() =~= entries@.take(i as int));
        assert(entries@.take(i + 1).last() == entries@[i as int]);
        proof {
            reveal_with_fuel(Seq::filter, 1);
        }
        let mut stale = false;
        if e.is_file {
            let name = string_of(&lower(&chars_of(e.name.as_str())));
            if !contains_text_value(keep, &name) && e.points_here {
                stale = true;
            }
        }
        let ghost prev = r@;
        if stale {
            r.push(e.path.clone());
            assert(texts(r@) =~= texts(prev).push(e.path@));
            assert(entries@.take(i + 1).filter(f) == entries@.take(i as int).filter(f).push(*e));
        } else {
            assert(entries@.take(i + 1).filter(f) == entries@.take(i as int).filter(f));
        }
        i += 1;
    }
    assert(entries@.take(entries.len() as int) =~= entries@);
    r
}

fn contains_text_value(v: &Vec<String>, d: &String) -> (r: bool)
    ensures
        r == texts(v@).contains(d@),
{
    let dc = chars_of(d.as_str());
    let mut i: usize = 0;
    while i < v.len()
        invariant
            i <= v.len(),
            dc@ == d@,
            forall|k: int| 0 <= k < i ==> texts(v@)[k] != d@,
        decreases v.len() - i,
    {
        let c = chars_of(v[i].as_str());
        if chars_eq(&c, &dc) {
            assert(texts(v@)[i as int] == d@);
            return true;
        }
        i += 1;
    }
    false
}

/// `rm -f "<path>"` for each path, joined by ` && `.
pub open spec fn removal_text(paths: Seq<Seq<char>>) -> Seq<char>
    decreases paths.len(),
{
    if paths.len() == 0 {
        Seq::empty()
    } else {
        let one = "rm -f \""@ + escape_quotes(paths.last()) + "\""@;
        if paths.len() == 1 {
            one
        } else {
            removal_text(paths.drop_last()) + " && "@ + one
        }
    }
}

/// The shell script removing the given resolver files.
pub fn removal_script(paths: &Vec<String>) -> (r: String)
    ensures
        r@ == removal_text(texts(paths@)),
{
    let ghost ps = texts(paths@);
    let mut v: Vec<char> = Vec::new();
    let mut i: usize = 0;
    while i < paths.len()
        invariant
            i <= paths.len(),
            ps == texts(paths@),
            v@ == removal_text(ps.take(i as int)),
        decreases paths.len() - i,
    {
        assert(ps.take(i + 1).drop_last() =~= ps.take(i as int));
        assert(ps.take(i + 1).last() == paths@[i as int]@);
        let ghost prev = v@;
        if i > 0 {
            push_str(&mut v, " && ");
        }
        push_str(&mut v, "rm -f \"");
        push_escaped(&mut v, &chars_of(paths[i].as_str()), false);
        push_str(&mut v, "\"");
        assert(v@ =~= removal_text(ps.take(i + 1)));
        i += 1;
    }
    assert(ps.take(paths.len() as int) =~= ps);
    string_of(&v)
}

/// The error for Linux, where system DNS routing is not set up.
pub fn linux_dns_unsupported() -> (e: AppError)
    ensures
        e@ == ErrorView::ToolFailed(
            "dns"@,
            "Linux DNS routing for `.test` is not yet implemented without system dnsmasq. Use macOS for now or install dnsmasq and configure systemd-resolved to query 127.0.0.1:53."@,
        ),
{
    AppError::ToolFailed {
        tool: "dns".to_string(),
        message: "Linux DNS routing for `.test` is not yet implemented without system dnsmasq. Use macOS for now or install dnsmasq and configure systemd-resolved to query 127.0.0.1:53.".to_string(),
    }
}

} // verus!
