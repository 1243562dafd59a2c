//! The bundled helper tools (Caddy, mkcert): their file names, where they
//! are looked for, the arguments they are run with, and how their outcome
//! is judged.
use vstd::prelude::*;

use crate::error::{AppError, ErrorView};
use crate::paths::{join_path, joined};
use crate::text::{
    chars_eq, chars_of, is_ascii_digit, push_all, push_str, string_of, texts, trim, trim_ws,
    utf8_lossy, utf8_lossy_text,
};

verus! {

/// What the user is told to do when a tool is missing.
pub open spec fn setup_help() -> Seq<char> {
    "Run `pnpm setup:deps` from the Domainest repo."@
}

/// Host triple in the bundled tool file names, from the CPU architecture
/// and operating system names Rust reports.
pub open spec fn target_triple(arch: Seq<char>, os: Seq<char>) -> Seq<char> {
    if arch == "aarch64"@ && os == "macos"@ {
        "aarch64-apple-darwin"@
    } else if arch == "x86_64"@ && os == "macos"@ {
        "x86_64-apple-darwin"@
    } else if arch == "aarch64"@ && os == "linux"@ {
        "aarch64-unknown-linux-gnu"@
    } else if arch == "x86_64"@ && os == "linux"@ {
        "x86_64-unknown-linux-gnu"@
    } else {
        arch + "-unknown-"@ + os
    }
}

fn text_is(v: &Vec<char>, s: &str) -> (r: bool)
    ensures
        r == (v@ == s@),
{
    chars_eq(v, &chars_of(s))
}

/// The host triple for `arch` and `os` (`std::env::consts::ARCH`/`OS`).
pub fn host_target_triple(arch: &str, os: &str) -> (r: String)
    ensures
        r@ == target_triple(arch@, os@),
{
    let a = chars_of(arch);
    let o = chars_of(os);
    if text_is(&a, "aarch64") && text_is(&o, "macos") {
        "aarch64-apple-darwin".to_string()
    } else if text_is(&a, "x86_64") && text_is(&o, "macos") {
        "x86_64-apple-darwin".to_string()
    } else if text_is(&a, "aarch64") && text_is(&o, "linux") {
        "aarch64-unknown-linux-gnu".to_string()
    } else if text_is(&a, "x86_64") && text_is(&o, "linux") {
        "x86_64-unknown-linux-gnu".to_string()
    } else {
        let mut v = a;
        push_str(&mut v, "-unknown-");
        push_all(&mut v, &o);
        string_of(&v)
    }
}

/// File name of a bundled tool: `<tool>-<triple>`.
pub open spec fn tool_file_name(tool: Seq<char>, triple: Seq<char>) -> Seq<char> {
    tool + seq!['-'] + triple
}

/// The file name of the bundled `tool` for the host `triple`.
pub fn tool_filename(tool: &str, triple: &str) -> (r: String)
    ensures
        r@ == tool_file_name(tool@, triple@),
{
    let mut v = chars_of(tool);
    v.push('-');
    push_str(&mut v, triple);
    string_of(&v)
}

/// Where a tool is looked for below `dir`: the directory itself, `bin`, and
/// `src-tauri/bin`.
pub open spec fn bin_candidates(dir: Seq<char>, file: Seq<char>) -> Seq<Seq<char>> {
    seq![
        joined(dir, file),
        joined(joined(dir, "bin"@), file),
        joined(joined(dir, "src-tauri/bin"@), file),
    ]
}

/// Appends the places below `dir` where the tool file `file` may be.
pub fn push_bin_candidates(paths: &mut Vec<String>, dir: &str, file: &str)
    ensures
        texts(final(paths)@) == texts(old(paths)@) + bin_candidates(dir@, file@),
{
    let ghost start = texts(paths@);
    paths.push(join_path(dir, file));
    let bin = join_path(dir, "bin");
    paths.push(join_path(bin.as_str(), file));
    let src = join_path(dir, "src-tauri/bin");
    paths.push(join_path(src.as_str(), file));
    assert(texts(paths@) =~= start + bin_candidates(dir@, file@));
}

/// All places the tool file is looked for, directory by directory.
pub open spec fn all_candidates(dirs: Seq<Seq<char>>, file: Seq<char>) -> Seq<Seq<char>>
    decreases dirs.len(),
{
    if dirs.len() == 0 {
        Seq::empty()
    } else {
        all_candidates(dirs.drop_last(), file) + bin_candidates(dirs.last(), file)
    }
}

/// The places the tool file is looked for, for the search directories in
/// order.
pub fn search_paths(dirs: &Vec<String>, file: &str) -> (r: Vec<String>)
    ensures
        texts(r@) == all_candidates(texts(dirs@), file@),
{
    let ghost ds = texts(dirs@);
    let mut r: Vec<String> = Vec::new();
    let mut i: usize = 0;
    while i < dirs.len()
        invariant
            i <= dirs.len(),
            ds == texts(dirs@),
            texts(r@) == all_candidates(ds.take(i as int), file@),
        decreases dirs.len() - i,
    {
        assert(ds.take(i + 1).drop_last() =~= ds.take(i as int));
        assert(ds.take(i + 1).last() == dirs@[i as int]@);
        push_bin_candidates(&mut r, dirs[i].as_str(), file);
        i += 1;
    }
    assert(ds.take(dirs.len() as int) =~= ds);
    r
}

/// The directories whose candidates are tried, in order: the directory
/// named by `DOMAINEST_BIN_DIR` if set, then the executable's directory and
/// its ancestors, then the working directory and its ancestors.
pub open spec fn search_dir_list(
    bin_dir: Option<Seq<char>>,
    exe_dirs: Seq<Seq<char>>,
    cwd_dirs: Seq<Seq<char>>,
) -> Seq<Seq<char>> {
    match bin_dir {
        Some(d) => seq![d] + exe_dirs + cwd_dirs,
        None => exe_dirs + cwd_dirs,
    }
}

fn push_strings(dst: &mut Vec<String>, src: &Vec<String>)
    ensures
        texts(final(dst)@) == texts(old(dst)@) + texts(src@),
{
    let ghost start = dst@;
    let mut i: usize = 0;
    while i < src.len()
        invariant
            i <= src.len(),
            dst@ == start + src@.subrange(0, i as int),
        decreases src.len() - i,
    {
        dst.push(src[i].clone());
        i += 1;
        assert(dst@ =~= start + src@.subrange(0, i as int));
    }
    assert(dst@ =~= start + src@);
    assert(texts(dst@) =~= texts(start) + texts(src@));
}

/// The directories searched for a tool's exact file name.
pub fn search_dirs(bin_dir: Option<String>, exe_dirs: &Vec<String>, cwd_dirs: &Vec<String>) -> (r: Vec<
    String,
>)
    ensures
        texts(r@) == search_dir_list(
            match bin_dir {
                Some(d) => Some(d@),
                None => None,
            },
            texts(exe_dirs@),
            texts(cwd_dirs@),
        ),
{
    let mut r: Vec<String> = Vec::new();
    match bin_dir {
        Some(d) => {
            r.push(d);
        },
        None => {},
    }
    assert(texts(r@) =~= match bin_dir {
        Some(d) => seq![d@],
        None => Seq::<Seq<char>>::empty(),
    });
    push_strings(&mut r, exe_dirs);
    push_strings(&mut r, cwd_dirs);
    r
}

/// The directories scanned for any build of a tool when its exact file is
/// missing: the `DOMAINEST_BIN_DIR` directory; `bin` and `src-tauri/bin`
/// below the executable's directory and each of its ancestors; then
/// `src-tauri/bin` and `bin` below the working directory and each of its
/// ancestors.
pub open spec fn scan_dir_list(
    bin_dir: Option<Seq<char>>,
    exe_dirs: Seq<Seq<char>>,
    cwd_dirs: Seq<Seq<char>>,
) -> Seq<Seq<char>> {
    let head = match bin_dir {
        Some(d) => seq![d],
        None => Seq::empty(),
    };
    head + below_each(exe_dirs, "bin"@, "src-tauri/bin"@) + below_each(cwd_dirs, "src-tauri/bin"@, "bin"@)
}

/// `first` then `second` below each directory of `dirs`, in order.
pub open spec fn below_each(dirs: Seq<Seq<char>>, first: Seq<char>, second: Seq<char>) -> Seq<
    Seq<char>,
>
    decreases dirs.len(),
{
    if dirs.len() == 0 {
        Seq::empty()
    } else {
        below_each(dirs.drop_last(), first, second) + seq![
            joined(dirs.last(), first),
            joined(dirs.last(), second),
        ]
    }
}

fn push_below_each(dst: &mut Vec<String>, dirs: &Vec<String>, first: &str, second: &str)
    ensures
        texts(final(dst)@) == texts(old(dst)@) + below_each(texts(dirs@), first@, second@),
{
    let ghost start = texts(dst@);
    let ghost ds = texts(dirs@);
    let mut i: usize = 0;
    while i < dirs.len()
        invariant
            i <= dirs.len(),
            ds == texts(dirs@),
            texts(dst@) == start + below_each(ds.take(i as int), first@, second@),
        decreases dirs.len() - i,
    {
        let ghost prev = texts(dst@);
        dst.push(join_path(dirs[i].as_str(), first));
        dst.push(join_path(dirs[i].as_str(), second));
        assert(ds.take(i + 1).drop_last() =~= ds.take(i as int));
        assert(ds.take(i + 1).last() == dirs@[i as int]@);
        assert(texts(dst@) =~= prev + seq![
            joined(dirs@[i as int]@, first@),
            joined(dirs@[i as int]@, second@),
        ]);
        i += 1;
    }
    assert(ds.take(dirs.len() as int) =~= ds);
}

/// The directories scanned for any build of a tool.
pub fn scan_dirs(bin_dir: Option<String>, exe_dirs: &Vec<String>, cwd_dirs: &Vec<String>) -> (r: Vec<
    String,
>)
    ensures
        texts(r@) == scan_dir_list(
            match bin_dir {
                Some(d) => Some(d@),
                None => None,
            },
            texts(exe_dirs@),
            texts(cwd_dirs@),
        ),
{
    let mut r: Vec<String> = Vec::new();
    match bin_dir {
        Some(d) => {
            r.push(d);
        },
        None => {},
    }
    assert(texts(r@) =~= match bin_dir {
        Some(d) => seq![d@],
        None => Seq::<Seq<char>>::empty(),
    });
    push_below_each(&mut r, exe_dirs, "bin", "src-tauri/bin");
    push_below_each(&mut r, cwd_dirs, "src-tauri/bin", "bin");
    r
}

/// A directory entry named like some build of `tool` (`<tool>-…`).
pub open spec fn names_tool_build(name: Seq<char>, tool: Seq<char>) -> bool {
    crate::text::has_prefix(name, tool + seq!['-'])
}

/// Whether a directory entry is some build of `tool`.
pub fn is_tool_build(name: &str, tool: &str) -> (r: bool)
    ensures
        r == names_tool_build(name@, tool@),
{
    let mut p = chars_of(tool);
    p.push('-');
    assert(p@ =~= tool@ + seq!['-']);
    crate::text::starts_with(&chars_of(name), &p)
}

/// The error for a tool that could not be found.
pub fn tool_missing(tool: &str) -> (e: AppError)
    ensures
        e@ == ErrorView::ToolMissing(tool@, setup_help()),
{
    AppError::ToolMissing {
        tool: tool.to_string(),
        help: "Run `pnpm setup:deps` from the Domainest repo.".to_string(),
    }
}

/// The message of a failed tool run: its standard output then its standard
/// error, decoded, trimmed.
pub open spec fn failure_text(stdout: Seq<u8>, stderr: Seq<u8>) -> Seq<char> {
    trim_ws(utf8_lossy_text(stdout) + utf8_lossy_text(stderr))
}

/// The outcome of a tool run: success, or `ToolFailed` with its output.
pub open spec fn tool_outcome(success: bool, stdout: Seq<u8>, stderr: Seq<u8>, tool: Seq<char>) -> Result<
    (),
    ErrorView,
> {
    if success {
        Ok(())
    } else {
        Err(ErrorView::ToolFailed(tool, failure_text(stdout, stderr)))
    }
}

/// Judges a finished tool run from its exit status and output.
pub fn tool_output_ok(success: bool, stdout: &Vec<u8>, stderr: &Vec<u8>, tool: &str) -> (r: Result<
    (),
    AppError,
>)
    ensures
        match r {
            Ok(()) => tool_outcome(success, stdout@, stderr@, tool@) == Ok::<(), ErrorView>(()),
            Err(e) => tool_outcome(success, stdout@, stderr@, tool@) == Err::<(), ErrorView>(e@),
        },
{
    if success {
        return Ok(());
    }
    let mut v = chars_of(utf8_lossy(stdout).as_str());
    let err = chars_of(utf8_lossy(stderr).as_str());
    push_all(&mut v, &err);
    let m = trim(&v);
    Err(AppError::ToolFailed { tool: tool.to_string(), message: string_of(&m) })
}

/// Arguments that stop a Caddy listening on the admin address.
pub fn caddy_stop_args() -> (r: Vec<String>)
    ensures
        texts(r@) == seq!["stop"@, "--address"@, crate::caddy::admin_addr()],
{
    let mut r: Vec<String> = Vec::new();
    r.push("stop".to_string());
    r.push("--address".to_string());
    r.push("127.0.0.1:2019".to_string());
    assert(texts(r@) =~= seq!["stop"@, "--address"@, crate::caddy::admin_addr()]);
    r
}

/// Arguments that run Caddy on `caddyfile`, writing its pid to `pidfile`.
pub fn caddy_run_args(caddyfile: &str, pidfile: &str) -> (r: Vec<String>)
    ensures
        texts(r@) == seq![
            "run"@,
            "--config"@,
            caddyfile@,
            "--adapter"@,
            "caddyfile"@,
            "--pidfile"@,
            pidfile@,
        ],
{
    let mut r: Vec<String> = Vec::new();
    r.push("run".to_string());
    r.push("--config".to_string());
    r.push(caddyfile.to_string());
    r.push("--adapter".to_string());
    r.push("caddyfile".to_string());
    r.push("--pidfile".to_string());
    r.push(pidfile.to_string());
    assert(texts(r@) =~= seq![
        "run"@,
        "--config"@,
        caddyfile@,
        "--adapter"@,
        "caddyfile"@,
        "--pidfile"@,
        pidfile@,
    ]);
    r
}

/// Arguments that make a running Caddy load `caddyfile`.
pub fn caddy_reload_args(caddyfile: &str) -> (r: Vec<String>)
    ensures
        texts(r@) == seq![
            "reload"@,
            "--config"@,
            caddyfile@,
            "--adapter"@,
            "caddyfile"@,
            "--address"@,
            crate::caddy::admin_addr(),
        ],
{
    let mut r: Vec<String> = Vec::new();
    r.push("reload".to_string());
    r.push("--config".to_string());
    r.push(caddyfile.to_string());
    r.push("--adapter".to_string());
    r.push("caddyfile".to_string());
    r.push("--address".to_string());
    r.push("127.0.0.1:2019".to_string());
    assert(texts(r@) =~= seq![
        "reload"@,
        "--config"@,
        caddyfile@,
        "--adapter"@,
        "caddyfile"@,
        "--address"@,
        crate::caddy::admin_addr(),
    ]);
    r
}

/// Environment for Caddy: its home and data directories are `caddy_dir`.
pub fn caddy_env(caddy_dir: &str) -> (r: Vec<(String, String)>)
    ensures
        r@.len() == 2,
        r@[0].0@ == "CADDY_HOME"@ && r@[0].1@ == caddy_dir@,
        r@[1].0@ == "XDG_DATA_HOME"@ && r@[1].1@ == caddy_dir@,
{
    let mut r: Vec<(String, String)> = Vec::new();
    r.push(("CADDY_HOME".to_string(), caddy_dir.to_string()));
    r.push(("XDG_DATA_HOME".to_string(), caddy_dir.to_string()));
    r
}

/// Arguments that install mkcert's local certificate authority.
pub fn mkcert_install_args() -> (r: Vec<String>)
    ensures
        texts(r@) == seq!["-install"@],
{
    let mut r: Vec<String> = Vec::new();
    r.push("-install".to_string());
    assert(texts(r@) =~= seq!["-install"@]);
    r
}

/// Arguments that make mkcert issue a certificate for `domain`.
pub fn mkcert_cert_args(cert_path: &str, key_path: &str, domain: &str) -> (r: Vec<String>)
    ensures
        texts(r@) == seq!["-cert-file"@, cert_path@, "-key-file"@, key_path@, domain@],
{
    let mut r: Vec<String> = Vec::new();
    r.push("-cert-file".to_string());
    r.push(cert_path.to_string());
    r.push("-key-file".to_string());
    r.push(key_path.to_string());
    r.push(domain.to_string());
    assert(texts(r@) =~= seq!["-cert-file"@, cert_path@, "-key-file"@, key_path@, domain@]);
    r
}

/// The label of the mkcert run for `domain` in error messages.
pub fn mkcert_label(domain: &str) -> (r: String)
    ensures
        r@ == "mkcert "@ + domain@,
{
    let mut v = chars_of("mkcert ");
    push_str(&mut v, domain);
    string_of(&v)
}

/// The value written by the decimal digits `s`.
pub open spec fn decimal_value(s: Seq<char>) -> nat
    decreases s.len(),
{
    if s.len() == 0 {
        0
    } else {
        decimal_value(s.drop_last()) * 10 + ((s.last() as nat) - 48) as nat
    }
}

pub open spec fn all_digits(s: Seq<char>) -> bool {
    forall|i: int| 0 <= i < s.len() ==> is_ascii_digit(#[trigger] s[i])
}

/// What `str::parse::<i32>` gives: an optional sign, then at least one
/// decimal digit, within the range of `i32`.
pub open spec fn parsed_i32(s: Seq<char>) -> Option<i32> {
    let neg = s.len() > 0 && s[0] == '-';
    let digits = if s.len() > 0 && (s[0] == '-' || s[0] == '+') {
        s.drop_first()
    } else {
        s
    };
    if digits.len() == 0 || !all_digits(digits) {
        None
    } else {
        let v: int = if neg {
            -(decimal_value(digits) as int)
        } else {
            decimal_value(digits) as int
        };
        if i32::MIN <= v <= i32::MAX {
            Some(v as i32)
        } else {
            None
        }
    }
}

/// The process id in a pid file: its trimmed text read as an `i32`.
pub fn parse_pidfile(contents: &str) -> (r: Option<i32>)
    ensures
        r == parsed_i32(trim_ws(contents@)),
{
    let s = trim(&chars_of(contents));
    let neg = s.len() > 0 && s[0] == '-';
    let start: usize = if s.len() > 0 && (s[0] == '-' || s[0] == '+') {
        1
    } else {
        0
    };
    let ghost digits = if s@.len() > 0 && (s@[0] == '-' || s@[0] == '+') {
        s@.drop_first()
    } else {
        s@
    };
    assert(digits =~= s@.subrange(start as int, s@.len() as int));
    if start >= s.len() {
        return None;
    }
    let mut acc: u64 = 0;
    let mut i: usize = start;
    while i < s.len()
        invariant
            start <= i <= s.len(),
            start < s.len(),
            s@ == trim_ws(contents@),
            neg == (s@.len() > 0 && s@[0] == '-'),
            digits == (if s@.len() > 0 && (s@[0] == '-' || s@[0] == '+') {
                s@.drop_first()
            } else {
                s@
            }),
            digits =~= s@.subrange(start as int, s@.len() as int),
            all_digits(s@.subrange(start as int, i as int)),
            acc == decimal_value(s@.subrange(start as int, i as int)),
            acc <= 2147483648,
        decreases s.len() - i,
    {
        let c = s[i];
        assert(s@.subrange(start as int, i + 1).drop_last() =~= s@.subrange(start as int, i as int));
        if !('0' <= c && c <= '9') {
            assert(!all_digits(digits)) by {
                assert(digits[i - start] == c);
            }
            return None;
        }
        let d = (c as u64) - 48;
        let next = acc * 10 + d;
        if next > 2147483648 {
            proof {
                assert(s@.subrange(start as int, i + 1) =~= s@.subrange(start as int, i as int).push(c));
                assert(digits.subrange(0, i + 1 - start) =~= s@.subrange(start as int, i + 1));
                if all_digits(digits) {
                    lemma_decimal_prefix_le(digits, (i + 1 - start) as int);
                }
            }
            return None;
        }
        acc = next;
        i += 1;
        assert(all_digits(s@.subrange(start as int, i as int))) by {
            assert(s@.subrange(start as int, i as int) =~= s@.subrange(start as int, i - 1).push(c));
        }
    }
    assert(s@.subrange(start as int, s@.len() as int) =~= digits);
    if neg {
        let v: i64 = -(acc as i64);
        Some(v as i32)
    } else {
        if acc > 2147483647 {
            return None;
        }
        Some(acc as i32)
    }
}

/// A longer run of digits never has a smaller value.
pub proof fn lemma_decimal_prefix_le(s: Seq<char>, k: int)
    requires
        0 <= k <= s.len(),
        all_digits(s),
    ensures
        decimal_value(s.subrange(0, k)) <= decimal_value(s),
    decreases s.len() - k,
{
    if k < s.len() {
        lemma_decimal_prefix_le(s, k + 1);
        assert(s.subrange(0, k + 1).drop_last() =~= s.subrange(0, k));
        assert(is_ascii_digit(s.subrange(0, k + 1).last()));
        assert(decimal_value(s.subrange(0, k)) <= decimal_value(s.subrange(0, k + 1))) by (
        nonlinear_arith)
            requires
                decimal_value(s.subrange(0, k + 1)) == decimal_value(s.subrange(0, k)) * 10 + ((
                s.subrange(0, k + 1).last() as nat) - 48) as nat,
        ;
    } else {
        assert(s.subrange(0, k) =~= s);
    }
}

} // verus!
