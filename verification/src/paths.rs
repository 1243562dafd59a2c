//! Unix path text: joining, the final component, and the temporary file
//! name used for atomic writes.
use vstd::prelude::*;

use crate::ids::{id_text, uuid_text};
use crate::text::{chars_of, push_all, push_str, slice_chars, string_of, trim, trim_ws};

verus! {

/// `base` joined with `rel` (`PathBuf::push` on Unix): an absolute `rel`
/// replaces `base`; otherwise a `/` is put between them unless `base` is
/// empty or already ends with one.
pub open spec fn joined(base: Seq<char>, rel: Seq<char>) -> Seq<char> {
    if rel.len() > 0 && rel[0] == '/' {
        rel
    } else if base.len() == 0 || base.last() == '/' {
        base + rel
    } else {
        base + seq!['/'] + rel
    }
}

/// Joins `rel` onto `base`.
pub fn join_path(base: &str, rel: &str) -> (r: String)
    ensures
        r@ == joined(base@, rel@),
{
    let b = chars_of(base);
    let rc = chars_of(rel);
    if rc.len() > 0 && rc[0] == '/' {
        return string_of(&rc);
    }
    let mut v = crate::text::copy_chars(&b);
    if !(b.len() == 0 || b[b.len() - 1] == '/') {
        v.push('/');
    }
    push_all(&mut v, &rc);
    string_of(&v)
}

/// End (exclusive) of the last component of `s[..k]` that is neither empty
/// nor `.`; 0 if there is none.
pub open spec fn component_end(s: Seq<char>, k: int) -> int
    decreases k,
{
    if k <= 0 || k > s.len() {
        0
    } else if s[k - 1] == '/' {
        component_end(s, k - 1)
    } else if s[k - 1] == '.' && (k == 1 || s[k - 2] == '/') {
        component_end(s, k - 1)
    } else {
        k
    }
}

/// Start of the component that ends at `k`: just after the last `/` before
/// `k`, or 0.
pub open spec fn component_start(s: Seq<char>, k: int) -> int
    decreases k,
{
    if k <= 0 || k > s.len() {
        0
    } else if s[k - 1] == '/' {
        k
    } else {
        component_start(s, k - 1)
    }
}

/// The final component of the path `s` (`Path::file_name`): `None` for a
/// path with no normal final component (empty, root, `.` or `..`).
pub open spec fn file_name_of(s: Seq<char>) -> Option<Seq<char>> {
    let end = component_end(s, s.len() as int);
    let start = component_start(s, end);
    if end == 0 {
        None
    } else if s.subrange(start, end) == ".."@ {
        None
    } else {
        Some(s.subrange(start, end))
    }
}

/// Index of the last `.` in `name`, if any.
pub open spec fn last_dot(name: Seq<char>, k: int) -> Option<int>
    decreases k,
{
    if k <= 0 || k > name.len() {
        None
    } else if name[k - 1] == '.' {
        Some(k - 1)
    } else {
        last_dot(name, k - 1)
    }
}

/// Length of the stem of a file name: up to its last `.`, unless that dot
/// is the first character (or there is none).
pub open spec fn stem_len(name: Seq<char>) -> int {
    match last_dot(name, name.len() as int) {
        Some(d) => if d > 0 {
            d
        } else {
            name.len() as int
        },
        None => name.len() as int,
    }
}

/// The extension of a file name (`Path::extension`).
pub open spec fn extension_of(name: Seq<char>) -> Option<Seq<char>> {
    match last_dot(name, name.len() as int) {
        Some(d) => if d > 0 {
            Some(name.subrange(d + 1, name.len() as int))
        } else {
            None
        },
        None => None,
    }
}

/// `path` with the extension of its file name set to `ext`
/// (`PathBuf::set_extension`, for a non-empty `ext`): everything after the
/// stem of the final component is replaced by `.ext`; a path without a file
/// name is returned unchanged.
pub open spec fn with_extension_text(path: Seq<char>, ext: Seq<char>) -> Seq<char> {
    match file_name_of(path) {
        None => path,
        Some(name) => {
            let end = component_end(path, path.len() as int);
            let start = component_start(path, end);
            path.subrange(0, start + stem_len(name)) + seq!['.'] + ext
        },
    }
}

/// The path used to write `path` atomically: its extension followed by
/// `.tmp` (`x.json` → `x.json.tmp`, `x` → `x.tmp`).
pub open spec fn tmp_path_text(path: Seq<char>) -> Seq<char> {
    let ext = match file_name_of(path) {
        Some(name) => match extension_of(name) {
            Some(e) => e + ".tmp"@,
            None => "tmp"@,
        },
        None => "tmp"@,
    };
    with_extension_text(path, ext)
}

fn component_end_exec(s: &Vec<char>) -> (k: usize)
    ensures
        k as int == component_end(s@, s@.len() as int),
        k <= s.len(),
{
    let mut k: usize = s.len();
    while k > 0 && (s[k - 1] == '/' || (s[k - 1] == '.' && (k == 1 || s[k - 2] == '/')))
        invariant
            k <= s.len(),
            component_end(s@, s@.len() as int) == component_end(s@, k as int),
        decreases k,
    {
        k -= 1;
    }
    k
}

fn component_start_exec(s: &Vec<char>, end: usize) -> (k: usize)
    requires
        end <= s.len(),
    ensures
        k as int == component_start(s@, end as int),
        k <= end,
{
    let mut k: usize = end;
    while k > 0 && s[k - 1] != '/'
        invariant
            k <= end <= s.len(),
            component_start(s@, end as int) == component_start(s@, k as int),
        decreases k,
    {
        k -= 1;
    }
    k
}

/// The final component of `path` (`Path::file_name`).
pub fn file_name(path: &str) -> (r: Option<String>)
    ensures
        match r {
            Some(n) => file_name_of(path@) == Some(n@),
            None => file_name_of(path@) is None,
        },
{
    let s = chars_of(path);
    let end = component_end_exec(&s);
    let start = component_start_exec(&s, end);
    if end == 0 {
        return None;
    }
    let name = slice_chars(&s, start, end);
    let dd = chars_of("..");
    if crate::text::chars_eq(&name, &dd) {
        return None;
    }
    Some(string_of(&name))
}

fn last_dot_exec(name: &Vec<char>) -> (r: Option<usize>)
    ensures
        match r {
            Some(d) => last_dot(name@, name@.len() as int) == Some(d as int) && d < name.len(),
            None => last_dot(name@, name@.len() as int) is None,
        },
{
    let mut k: usize = name.len();
    while k > 0
        invariant
            k <= name.len(),
            last_dot(name@, name@.len() as int) == last_dot(name@, k as int),
        decreases k,
    {
        if name[k - 1] == '.' {
            return Some(k - 1);
        }
        k -= 1;
    }
    None
}

/// `path` with the extension of its file name set to `ext`.
pub fn with_extension(path: &str, ext: &Vec<char>) -> (r: String)
    ensures
        r@ == with_extension_text(path@, ext@),
{
    let s = chars_of(path);
    let end = component_end_exec(&s);
    let start = component_start_exec(&s, end);
    if end == 0 {
        return string_of(&s);
    }
    let name = slice_chars(&s, start, end);
    let dd = chars_of("..");
    if crate::text::chars_eq(&name, &dd) {
        return string_of(&s);
    }
    let stem = match last_dot_exec(&name) {
        Some(d) => if d > 0 {
            d
        } else {
            name.len()
        },
        None => name.len(),
    };
    let mut v = slice_chars(&s, 0, start + stem);
    v.push('.');
    push_all(&mut v, ext);
    string_of(&v)
}

/// The extension of the final component of `path`, if any.
pub fn extension(path: &str) -> (r: Option<String>)
    ensures
        match r {
            Some(e) => file_name_of(path@) matches Some(n) && extension_of(n) == Some(e@),
            None => !(file_name_of(path@) matches Some(n) && extension_of(n) is Some),
        },
{
    match file_name(path) {
        None => None,
        Some(n) => {
            let name = chars_of(n.as_str());
            match last_dot_exec(&name) {
                Some(d) => if d > 0 {
                    Some(string_of(&slice_chars(&name, d + 1, name.len())))
                } else {
                    None
                },
                None => None,
            }
        },
    }
}

/// The temporary path `path` is first written to (`x.json` → `x.json.tmp`).
pub fn tmp_path_for(path: &str) -> (r: String)
    ensures
        r@ == tmp_path_text(path@),
{
    let ext = match extension(path) {
        Some(e) => {
            let mut v = chars_of(e.as_str());
            push_str(&mut v, ".tmp");
            v
        },
        None => chars_of("tmp"),
    };
    with_extension(path, &ext)
}

/// The file name a project gets when none can be taken from its path.
pub open spec fn fallback_project_name() -> Seq<char> {
    "project"@
}

/// A project's name: the final component of its directory path, or
/// `project`.
pub open spec fn project_name_of(path: Seq<char>) -> Seq<char> {
    match file_name_of(path) {
        Some(n) => n,
        None => fallback_project_name(),
    }
}

/// The name given to a project added from `path`.
pub fn project_name_from_path(path: &str) -> (r: String)
    ensures
        r@ == project_name_of(path@),
{
    match file_name(path) {
        Some(n) => n,
        None => "project".to_string(),
    }
}

/// Text that is empty once trimmed: a stored file holding nothing.
pub open spec fn is_blank_text(s: Seq<char>) -> bool {
    trim_ws(s).len() == 0
}

/// Whether stored text holds nothing but white space.
pub fn is_blank(s: &str) -> (r: bool)
    ensures
        r == is_blank_text(s@),
{
    trim(&chars_of(s)).len() == 0
}

/// Domainest's own directory below the home directory `home`.
pub open spec fn domainest_dir_text(home: Seq<char>) -> Seq<char> {
    joined(home, ".domainest"@)
}

/// `.domainest` below the home directory `home`.
pub fn domainest_dir(home: &str) -> (r: String)
    ensures
        r@ == domainest_dir_text(home@),
{
    join_path(home, ".domainest")
}

/// `name` inside Domainest's directory below `home`.
pub open spec fn state_file_text(home: Seq<char>, name: Seq<char>) -> Seq<char> {
    joined(domainest_dir_text(home), name)
}

fn state_file(home: &str, name: &str) -> (r: String)
    ensures
        r@ == state_file_text(home@, name@),
{
    let d = domainest_dir(home);
    join_path(d.as_str(), name)
}

/// The projects file, `projects.json`.
pub fn projects_json_path(home: &str) -> (r: String)
    ensures
        r@ == state_file_text(home@, "projects.json"@),
{
    state_file(home, "projects.json")
}

/// The directory of generated certificates, `certs`.
pub fn certs_dir(home: &str) -> (r: String)
    ensures
        r@ == state_file_text(home@, "certs"@),
{
    state_file(home, "certs")
}

/// The directory of dev server logs, `logs`.
pub fn logs_dir(home: &str) -> (r: String)
    ensures
        r@ == state_file_text(home@, "logs"@),
{
    state_file(home, "logs")
}

/// Caddy's directory, `caddy`.
pub fn caddy_dir(home: &str) -> (r: String)
    ensures
        r@ == state_file_text(home@, "caddy"@),
{
    state_file(home, "caddy")
}

/// The dnsmasq directory, `dnsmasq`.
pub fn dnsmasq_dir(home: &str) -> (r: String)
    ensures
        r@ == state_file_text(home@, "dnsmasq"@),
{
    state_file(home, "dnsmasq")
}

/// The application state file, `state.json`.
pub fn app_state_path(home: &str) -> (r: String)
    ensures
        r@ == state_file_text(home@, "state.json"@),
{
    state_file(home, "state.json")
}

/// The managed Caddyfile, `Caddyfile` in Domainest's directory.
pub fn caddyfile_path(home: &str) -> (r: String)
    ensures
        r@ == state_file_text(home@, "Caddyfile"@),
{
    state_file(home, "Caddyfile")
}

/// Caddy's pid file, `caddy.pid` in Caddy's directory.
pub fn pidfile_path(home: &str) -> (r: String)
    ensures
        r@ == joined(state_file_text(home@, "caddy"@), "caddy.pid"@),
{
    let d = caddy_dir(home);
    join_path(d.as_str(), "caddy.pid")
}

/// The dnsmasq snippet Domainest writes, `domainest.conf` in the dnsmasq
/// directory.
pub fn dnsmasq_config_path(home: &str) -> (r: String)
    ensures
        r@ == joined(state_file_text(home@, "dnsmasq"@), "domainest.conf"@),
{
    let d = dnsmasq_dir(home);
    join_path(d.as_str(), "domainest.conf")
}

/// The log file of the project with id `id`: `<id>.log` in the logs
/// directory, the id written as a hyphenated lowercase UUID.
pub fn log_path(home: &str, id: u128) -> (r: String)
    ensures
        r@ == joined(state_file_text(home@, "logs"@), uuid_text(id) + ".log"@),
{
    let d = logs_dir(home);
    let mut name = chars_of(id_text(id).as_str());
    push_str(&mut name, ".log");
    join_path(d.as_str(), string_of(&name).as_str())
}

proof fn lemma_component_start_after_slash(s: Seq<char>, j: int, k: int)
    requires
        0 <= j < k <= s.len(),
        s[j] == '/',
        forall|m: int| j < m < k ==> s[m] != '/',
    ensures
        component_start(s, k) == j + 1,
    decreases k,
{
    if k > j + 1 {
        lemma_component_start_after_slash(s, j, k - 1);
    }
}

/// The final component of `dir/n` is `n`, for a name `n` without `/` that
/// is neither `.` nor `..`, and a project added from that directory is
/// named `n`.
pub proof fn law_file_name_is_last_component(dir: Seq<char>, n: Seq<char>)
    requires
        n.len() > 0,
        forall|i: int| 0 <= i < n.len() ==> n[i] != '/',
        n != "."@,
        n != ".."@,
    ensures
        file_name_of(dir + seq!['/'] + n) == Some(n),
        project_name_of(dir + seq!['/'] + n) == n,
{
    reveal_strlit(".");
    let s = dir + seq!['/'] + n;
    let l = s.len() as int;
    let d = dir.len() as int;
    assert(s[l - 1] == n[n.len() - 1]);
    if s[l - 1] == '.' {
        if n.len() == 1 {
            assert(n =~= "."@);
        } else {
            assert(s[l - 2] == n[n.len() - 2]);
        }
    }
    assert(component_end(s, l) == l);
    assert(s[d] == '/');
    assert forall|m: int| d < m < l implies s[m] != '/' by {
        assert(s[m] == n[m - d - 1]);
    }
    lemma_component_start_after_slash(s, d, l);
    assert(s.subrange(d + 1, l) =~= n);
}

} // verus!
