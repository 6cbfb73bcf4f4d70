//! `exec` mode: the command wrapped around the fixture, the environment it
//! sees, and the exit code that comes of it.

use crate::text::{
    copy_str, decimal, decimal_string, is_digit, lemma_decimal_reads_back, pairs_view,
    parse_unsigned, strings_view, unsigned_digits,
};
use crate::url::{host_port_of, lemma_server_url_splits_back, url_text};
use vstd::prelude::*;

verus! {

/// How the wrapped command ended.
#[derive(Debug, Clone, Copy, PartialEq, Eq, Structural)]
pub struct ExecOutcome {
    pub exit_code: i32,
}

/// The wrapped command as it is started: the program, its arguments, and the
/// variables added to its environment.
#[derive(Debug, Clone)]
pub struct ChildCommand {
    pub program: String,
    pub args: Vec<String>,
    pub env: Vec<(String, String)>,
}

/// The environment that tells the wrapped command where the fixture is.
pub open spec fn fixture_env(host: Seq<char>, port: u16, url: Seq<char>) -> Seq<
    (Seq<char>, Seq<char>),
> {
    seq![("NATS_URL"@, url), ("NATS_HOST"@, host), ("NATS_PORT"@, decimal(port as nat))]
}

/// The command to run for `argv` (program first) against a fixture at
/// `host:port` with URL `url`; an empty `argv` is an error.
pub fn child_command(argv: &[String], host: &str, port: u16, url: &str) -> (r: Result<
    ChildCommand,
    String,
>)
    ensures
        argv@.len() == 0 ==> (r matches Err(e) && e@
            == "exec mode requires a command after `--`"@),
        argv@.len() > 0 ==> (r matches Ok(c) && c.program@ == argv@[0]@ && strings_view(c.args@)
            == strings_view(argv@.drop_first()) && pairs_view(c.env@) == fixture_env(
            host@,
            port,
            url@,
        )),
{
    if argv.len() == 0 {
        return Err(copy_str("exec mode requires a command after `--`"));
    }
    let program = copy_str(argv[0].as_str());
    let mut args: Vec<String> = Vec::new();
    let mut i: usize = 1;
    while i < argv.len()
        invariant
            1 <= i <= argv@.len(),
            args@.len() == i - 1,
            forall|j: int| 0 <= j < i - 1 ==> (#[trigger] args@[j])@ == argv@[j + 1]@,
        decreases argv.len() - i,
    {
        args.push(copy_str(argv[i].as_str()));
        i = i + 1;
    }
    assert(strings_view(args@) =~= strings_view(argv@.drop_first()));
    let mut env: Vec<(String, String)> = Vec::new();
    env.push((copy_str("NATS_URL"), copy_str(url)));
    env.push((copy_str("NATS_HOST"), copy_str(host)));
    env.push((copy_str("NATS_PORT"), decimal_string(port as u64)));
    assert(pairs_view(env@) =~= fixture_env(host@, port, url@));
    Ok(ChildCommand { program, args, env })
}

/// The exit code of the wrapped command: its own, or 1 when it has none
/// (it was ended by a signal).
pub fn exit_code_of(status_code: Option<i32>) -> (code: i32)
    ensures
        code == match status_code {
            Some(c) => c,
            None => 1,
        },
{
    match status_code {
        Some(c) => c,
        None => 1,
    }
}

/// The exit code of `exec` mode: the wrapped command's, or 1 when it could
/// not be run.
pub fn exec_exit_code(outcome: Option<ExecOutcome>) -> (code: i32)
    ensures
        code == match outcome {
            Some(o) => o.exit_code,
            None => 1,
        },
{
    match outcome {
        Some(o) => o.exit_code,
        None => 1,
    }
}

/// The environment of a command wrapped around a server at `host:port`
/// describes one server: its `NATS_URL` splits into its `NATS_HOST` and the
/// port that its `NATS_PORT` reads as.
pub proof fn lemma_fixture_env_agrees(host: Seq<char>, port: u16)
    ensures
        ({
            let env = fixture_env(host, port, url_text(host, port));
            &&& parse_unsigned(env[2].1, 0xffff) == Some(port as int)
            &&& host_port_of(env[0].1) == Some((env[1].1, port as int))
        }),
{
    lemma_server_url_splits_back(host, port);
    let d = decimal(port as nat);
    lemma_decimal_reads_back(port as nat);
    assert(is_digit(d[0]));
    assert(unsigned_digits(d) == d);
}

} // verus!
