//! How a project's dev server is launched: its arguments and environment.
use vstd::prelude::*;

use crate::models::Project;
use crate::text::{
    chars_eq, chars_of, decimal, decimal_chars, has_prefix, lower, lower_text, starts_with,
    string_of, texts,
};

verus! {

/// `a` asks for a port explicitly (`--port`, `--port=…` or `-p`).
pub open spec fn is_port_flag(a: Seq<char>) -> bool {
    a == "--port"@ || has_prefix(a, "--port="@) || a == "-p"@
}

/// Some argument of `args` asks for a port.
pub open spec fn has_port_flag(args: Seq<Seq<char>>) -> bool {
    exists|i: int| 0 <= i < args.len() && is_port_flag(#[trigger] args[i])
}

/// The first index of `--` in `args`.
pub open spec fn first_separator(args: Seq<Seq<char>>) -> Option<int>
    decreases args.len(),
{
    if args.len() == 0 {
        None
    } else if args[0] == "--"@ {
        Some(0)
    } else {
        match first_separator(args.drop_first()) {
            Some(i) => Some(i + 1),
            None => None,
        }
    }
}

/// Commands that run a package script and forward arguments after `--`.
pub open spec fn is_script_runner(command: Seq<char>) -> bool {
    let t = lower_text(command);
    t == "pnpm"@ || t == "npm"@ || t == "yarn"@ || t == "bun"@
}

/// The arguments the dev server is started with: the project's own, plus
/// `--port <port>` forwarded after `--` when a script runner is used and no
/// port flag is given.
pub open spec fn dev_server_args(command: Seq<char>, args: Seq<Seq<char>>, port: u16) -> Seq<
    Seq<char>,
> {
    let pt = decimal(port as nat);
    if is_script_runner(command) && !has_port_flag(args) {
        match first_separator(args) {
            Some(i) => args.insert(i + 1, "--port"@).insert(i + 2, pt),
            None => args.push("--"@).push("--port"@).push(pt),
        }
    } else {
        args
    }
}

fn index_of_separator(args: &Vec<String>) -> (r: Option<usize>)
    ensures
        match r {
            Some(i) => first_separator(texts(args@)) == Some(i as int) && i < args.len(),
            None => first_separator(texts(args@)) is None,
        },
{
    let sep = chars_of("--");
    let mut i: usize = 0;
    while i < args.len()
        invariant
            i <= args.len(),
            sep@ == "--"@,
            forall|k: int| 0 <= k < i ==> texts(args@)[k] != "--"@,
        decreases args.len() - i,
    {
        let a = chars_of(args[i].as_str());
        if chars_eq(&a, &sep) {
            proof {
                lemma_first_separator(texts(args@), i as int);
            }
            return Some(i);
        }
        i += 1;
    }
    proof {
        lemma_first_separator_none(texts(args@));
    }
    None
}

proof fn lemma_first_separator(args: Seq<Seq<char>>, i: int)
    requires
        0 <= i < args.len(),
        args[i] == "--"@,
        forall|k: int| 0 <= k < i ==> args[k] != "--"@,
    ensures
        first_separator(args) == Some(i),
    decreases i,
{
    if i > 0 {
        lemma_first_separator(args.drop_first(), i - 1);
    }
}

proof fn lemma_first_separator_none(args: Seq<Seq<char>>)
    requires
        forall|k: int| 0 <= k < args.len() ==> args[k] != "--"@,
    ensures
        first_separator(args) is None,
    decreases args.len(),
{
    if args.len() > 0 {
        lemma_first_separator_none(args.drop_first());
    }
}

fn any_port_flag(args: &Vec<String>) -> (r: bool)
    ensures
        r == has_port_flag(texts(args@)),
{
    let long = chars_of("--port");
    let long_eq = chars_of("--port=");
    let short = chars_of("-p");
    let mut i: usize = 0;
    while i < args.len()
        invariant
            i <= args.len(),
            long@ == "--port"@,
            long_eq@ == "--port="@,
            short@ == "-p"@,
            forall|k: int| 0 <= k < i ==> !is_port_flag(#[trigger] texts(args@)[k]),
        decreases args.len() - i,
    {
        let a = chars_of(args[i].as_str());
        if chars_eq(&a, &long) || starts_with(&a, &long_eq) || chars_eq(&a, &short) {
            assert(is_port_flag(texts(args@)[i as int]));
            return true;
        }
        i += 1;
    }
    false
}

fn text_is(v: &Vec<char>, s: &str) -> (r: bool)
    ensures
        r == (v@ == s@),
{
    let c = chars_of(s);
    chars_eq(v, &c)
}

/// The dev server's arguments and environment for `project`.
pub fn compute_command_args_and_env(project: &Project) -> (r: (Vec<String>, Vec<(String, String)>))
    ensures
        texts(r.0@) == dev_server_args(project.command@, texts(project.args@), project.port),
        r.1@.len() == 2,
        r.1@[0].0@ == "PORT"@ && r.1@[0].1@ == decimal(project.port as nat),
        r.1@[1].0@ == "HOST"@ && r.1@[1].1@ == "127.0.0.1"@,
{
    let mut args = crate::text::clone_strings(&project.args);
    let port_text = string_of(&decimal_chars(project.port as u64));
    let mut envs: Vec<(String, String)> = Vec::new();
    envs.push(("PORT".to_string(), string_of(&decimal_chars(project.port as u64))));
    envs.push(("HOST".to_string(), "127.0.0.1".to_string()));
    let tool = lower(&chars_of(project.command.as_str()));
    let is_runner = text_is(&tool, "pnpm") || text_is(&tool, "npm") || text_is(&tool, "yarn")
        || text_is(&tool, "bun");
    assert(is_runner == is_script_runner(project.command@));
    if is_runner {
        let has_flag = any_port_flag(&args);
        if !has_flag {
            let ghost a0 = texts(args@);
            match index_of_separator(&args) {
                Some(i) => {
                    args.insert(i + 1, "--port".to_string());
                    let n = args.len();
                    assert(i + 2 <= n);
                    args.insert(i + 2, port_text);
                    assert(texts(args@) =~= a0.insert(i + 1, "--port"@).insert(
                        i + 2,
                        decimal(project.port as nat),
                    ));
                },
                None => {
                    args.push("--".to_string());
                    args.push("--port".to_string());
                    args.push(port_text);
                    assert(texts(args@) =~= a0.push("--"@).push("--port"@).push(
                        decimal(project.port as nat),
                    ));
                },
            }
        }
    }
    (args, envs)
}

/// A script runner is always started with a port flag, so it binds to the
/// project's port.
pub proof fn law_runner_gets_port_flag(command: Seq<char>, args: Seq<Seq<char>>, port: u16)
    requires
        is_script_runner(command),
    ensures
        has_port_flag(dev_server_args(command, args, port)),
{
    if !has_port_flag(args) {
        let r = dev_server_args(command, args, port);
        match first_separator(args) {
            Some(i) => {
                lemma_first_separator_bound(args);
                assert(r[i + 1] == "--port"@);
                assert(is_port_flag(r[i + 1]));
            },
            None => {
                assert(r[r.len() - 2] == "--port"@);
                assert(is_port_flag(r[r.len() - 2]));
            },
        }
    }
}

proof fn lemma_first_separator_bound(args: Seq<Seq<char>>)
    ensures
        first_separator(args) matches Some(i) ==> 0 <= i < args.len(),
    decreases args.len(),
{
    if args.len() > 0 {
        lemma_first_separator_bound(args.drop_first());
    }
}

/// Computing the dev server arguments again changes nothing.
pub proof fn law_dev_server_args_stable(command: Seq<char>, args: Seq<Seq<char>>, port: u16)
    ensures
        dev_server_args(command, dev_server_args(command, args, port), port) == dev_server_args(
            command,
            args,
            port,
        ),
{
    if is_script_runner(command) {
        law_runner_gets_port_flag(command, args, port);
    }
}

/// A dev server run through `pnpm`, `npm`, `yarn` or `bun` (in any case)
/// with no port flag of its own is handed `--port <port>` after the first
/// `--` of its arguments, or after a `--` appended to them when there is
/// none.
pub proof fn law_script_runners_get_port(command: Seq<char>, args: Seq<Seq<char>>, port: u16)
    requires
        lower_text(command) == "pnpm"@ || lower_text(command) == "npm"@ || lower_text(command)
            == "yarn"@ || lower_text(command) == "bun"@,
        forall|i: int|
            0 <= i < args.len() ==> args[i] != "--port"@ && args[i] != "-p"@ && !has_prefix(
                #[trigger] args[i],
                "--port="@,
            ),
    ensures
        (forall|i: int| 0 <= i < args.len() ==> args[i] != "--"@) ==> dev_server_args(
            command,
            args,
            port,
        ) == args + seq!["--"@, "--port"@, decimal(port as nat)],
        forall|k: int|
            0 <= k < args.len() && args[k] == "--"@ && (forall|j: int| 0 <= j < k ==> args[j] != "--"@)
                ==> dev_server_args(command, args, port) == args.insert(k + 1, "--port"@).insert(
                k + 2,
                decimal(port as nat),
            ),
{
    assert(!has_port_flag(args)) by {
        if has_port_flag(args) {
            let i = choose|i: int| 0 <= i < args.len() && is_port_flag(#[trigger] args[i]);
            assert(!has_prefix(args[i], "--port="@));
        }
    }
    if forall|i: int| 0 <= i < args.len() ==> args[i] != "--"@ {
        lemma_first_separator_none(args);
        assert(args.push("--"@).push("--port"@).push(decimal(port as nat)) =~= args + seq![
            "--"@,
            "--port"@,
            decimal(port as nat),
        ]);
    }
    assert forall|k: int|
        0 <= k < args.len() && args[k] == "--"@ && (forall|j: int| 0 <= j < k ==> args[j] != "--"@)
            implies dev_server_args(command, args, port) == args.insert(k + 1, "--port"@).insert(
            k + 2,
            decimal(port as nat),
        ) by {
        lemma_first_separator(args, k);
    }
}

/// A dev server run by any other command gets exactly its own arguments.
pub proof fn law_other_commands_keep_args(command: Seq<char>, args: Seq<Seq<char>>, port: u16)
    requires
        lower_text(command) != "pnpm"@,
        lower_text(command) != "npm"@,
        lower_text(command) != "yarn"@,
        lower_text(command) != "bun"@,
    ensures
        dev_server_args(command, args, port) == args,
{
}

/// What stopping a dev server does after a poll of its process.
#[derive(PartialEq, Eq, Structural, Clone, Copy, Debug)]
pub enum StopStep {
    /// The process has exited: stopping is done.
    Finished,
    /// The grace period is not over: sleep and poll again.
    Wait,
    /// The grace period is over: kill the process group outright.
    ForceKill,
}

/// The step after a poll: done once the process has exited; otherwise a
/// forced kill once `elapsed_ms` reaches `timeout_ms`, else another wait.
pub fn next_stop_step(exited: bool, elapsed_ms: u64, timeout_ms: u64) -> (s: StopStep)
    ensures
        exited ==> s == StopStep::Finished,
        !exited && elapsed_ms >= timeout_ms ==> s == StopStep::ForceKill,
        !exited && elapsed_ms < timeout_ms ==> s == StopStep::Wait,
{
    if exited {
        StopStep::Finished
    } else if elapsed_ms >= timeout_ms {
        StopStep::ForceKill
    } else {
        StopStep::Wait
    }
}

} // verus!
