//! Where the `dsh web` server listens and how it is launched.

use vstd::prelude::*;
use crate::text::{
    chars_of, decimal, is_digit, lemma_decimal_digits, lemma_parse_decimal, parse_unsigned,
    parse_unsigned_range, push_decimal,
};

verus! {

/// The first port tried for the server; also the port assumed for a URL
/// whose port cannot be read.
pub const DEFAULT_PORT: u16 = 3080;

/// Where the globally installed package keeps its command-line entry
/// script, relative to the npm prefix (`%APPDATA%` on Windows).
pub const GLOBAL_BIN_JS: &'static str = "npm/node_modules/@deepseek-ai/dsh/lib/bin.js";

/// The loopback address the server listens on and is probed at.
pub const LOOPBACK_HOST: &'static str = "127.0.0.1";

/// Windows process-creation flag that keeps a console child of this GUI
/// process from opening a console window of its own.
pub const CREATE_NO_WINDOW: u32 = 0x0800_0000;

/// The part of `s` after its last `:`; all of `s` when it has none
/// (`s.rsplit(':').next()`).
pub open spec fn after_last_colon(s: Seq<char>) -> Seq<char>
    decreases s.len(),
{
    if s.len() == 0 {
        s
    } else if s.last() == ':' {
        Seq::<char>::empty()
    } else {
        after_last_colon(s.drop_last()).push(s.last())
    }
}

/// The port that `url` names: what follows its last `:` read as a `u16`, or
/// `DEFAULT_PORT` when that text is not a `u16`.
pub open spec fn url_port_of(url: Seq<char>) -> u16 {
    match parse_unsigned(after_last_colon(url), u16::MAX as nat) {
        Some(p) => p as u16,
        None => DEFAULT_PORT,
    }
}

/// The port that `url` names, `DEFAULT_PORT` when it names none.
pub fn url_port(url: &str) -> (port: u16)
    ensures
        port == url_port_of(url@),
{
    let v = chars_of(url);
    let n = v.len();
    let mut i = n;
    assert(v@.take(n as int) =~= v@);
    while i > 0 && v[i - 1] != ':'
        invariant
            i <= n == v.len(),
            v@ == url@,
            after_last_colon(url@) == after_last_colon(v@.take(i as int)) + v@.subrange(
                i as int,
                n as int,
            ),
        decreases i,
    {
        let ghost t = v@.take(i as int);
        assert(t.drop_last() =~= v@.take(i - 1));
        assert(after_last_colon(v@.take(i - 1)).push(v@[i - 1]) + v@.subrange(i as int, n as int)
            =~= after_last_colon(v@.take(i - 1)) + v@.subrange(i - 1, n as int));
        i = i - 1;
    }
    assert(after_last_colon(url@) =~= v@.subrange(i as int, n as int));
    match parse_unsigned_range(&v, i, n, 65535u64) {
        Some(p) => p as u16,
        None => DEFAULT_PORT,
    }
}

/// The text of the URL under which the server on `port` is reached.
pub open spec fn dsh_url_text(port: nat) -> Seq<char> {
    "http://127.0.0.1:"@ + decimal(port)
}

/// The URL under which the server on `port` is reached
/// (`http://127.0.0.1:<port>`).
pub fn dsh_url(port: u16) -> (url: String)
    ensures
        url@ == dsh_url_text(port as nat),
{
    let mut url = String::from_str("http://127.0.0.1:");
    push_decimal(&mut url, port as u64);
    url
}

/// Law: only the text after the last colon counts, so text ending in `:`
/// followed by colon-free text `b` yields `b`.
pub proof fn lemma_after_colon_suffix(a: Seq<char>, b: Seq<char>)
    requires
        a.len() > 0,
        a.last() == ':',
        forall|i: int| 0 <= i < b.len() ==> b[i] != ':',
    ensures
        after_last_colon(a + b) == b,
    decreases b.len(),
{
    if b.len() == 0 {
        assert(a + b =~= a);
    } else {
        assert((a + b).drop_last() =~= a + b.drop_last());
        assert((a + b).last() == b.last());
        lemma_after_colon_suffix(a, b.drop_last());
        assert(b.drop_last().push(b.last()) =~= b);
    }
}

/// Law: the port read back from the server URL is the port the URL was made
/// for (`url_port(&dsh_url(p)) == p`), so the supervisor probes and cleans up
/// the port it launched on.
pub proof fn lemma_url_port_round_trip(port: u16)
    ensures
        url_port_of(dsh_url_text(port as nat)) == port,
{
    reveal_strlit("http://127.0.0.1:");
    let d = decimal(port as nat);
    lemma_decimal_digits(port as nat);
    assert forall|i: int| 0 <= i < d.len() implies d[i] != ':' by {
        assert(is_digit(d[i]));
    }
    lemma_after_colon_suffix("http://127.0.0.1:"@, d);
    lemma_parse_decimal(port as nat, u16::MAX as nat);
}

/// How the server's standard streams are set up.
#[derive(Clone, Copy, Debug, PartialEq, Eq, Structural)]
pub enum ChildStdio {
    /// stdout and stderr are piped back to the shell, stdin is null.
    PipedOutputNullInput,
    /// All three are inherited from the shell.
    Inherited,
}

/// How to start the `dsh web` server: the program, its arguments, the
/// working directory it is rooted at (the server takes its default
/// workspace from it), how its standard streams are set up, and the Windows
/// creation flags (none elsewhere).
pub struct WebCommand<P> {
    pub program: String,
    pub args: Vec<String>,
    pub current_dir: P,
    pub stdio: ChildStdio,
    pub creation_flags: Option<u32>,
}

/// The texts of a list of strings.
pub open spec fn texts(v: Seq<String>) -> Seq<Seq<char>> {
    v.map_values(|a: String| a@)
}

/// The arguments of the `web` subcommand that serves on loopback at `port`.
pub open spec fn web_args(port: nat) -> Seq<Seq<char>> {
    seq!["web"@, "--host"@, "127.0.0.1"@, "--port"@, decimal(port)]
}

/// The arguments that make `npx` fetch and run the package's `web` server.
pub open spec fn npx_args(port: nat) -> Seq<Seq<char>> {
    seq!["-y"@, "@deepseek-ai/dsh"@] + web_args(port)
}

fn push_arg(args: &mut Vec<String>, a: &str)
    ensures
        texts(final(args)@) == texts(old(args)@).push(a@),
{
    args.push(String::from_str(a));
    assert(texts(args@) =~= texts(old(args)@).push(a@));
}

fn push_web_args(args: &mut Vec<String>, port: u16)
    ensures
        texts(final(args)@) == texts(old(args)@) + web_args(port as nat),
{
    push_arg(args, "web");
    push_arg(args, "--host");
    push_arg(args, "127.0.0.1");
    push_arg(args, "--port");
    let mut p = String::new();
    push_decimal(&mut p, port as u64);
    assert(p@ =~= decimal(port as nat));
    let ghost prev = texts(args@);
    args.push(p);
    assert(texts(args@) =~= prev.push(decimal(port as nat)));
    assert(texts(args@) =~= texts(old(args)@) + web_args(port as nat));
}

/// The command that serves `dsh web` on `port`, rooted at `cwd`. With the
/// globally installed entry script `global_bin` it is `node <global_bin> web
/// --host 127.0.0.1 --port <port>`, one process; without it the package is
/// run through `npx -y @deepseek-ai/dsh web ...`, on Windows by way of
/// `cmd /c`. The `node` form and the direct `npx` form pipe stdout and
/// stderr and give a null stdin; the Windows `cmd /c` form inherits all three.
/// On Windows every form carries `CREATE_NO_WINDOW`.
pub fn web_command<P>(port: u16, cwd: P, global_bin: Option<String>, windows: bool) -> (cmd: WebCommand<P>)
    ensures
        cmd.current_dir == cwd,
        cmd.creation_flags == (if windows { Some(CREATE_NO_WINDOW) } else { None::<u32> }),
        cmd.stdio == (if global_bin is None && windows {
            ChildStdio::Inherited
        } else {
            ChildStdio::PipedOutputNullInput
        }),
        match global_bin {
            Some(bin) => cmd.program@ == "node"@ && texts(cmd.args@) == seq![bin@] + web_args(
                port as nat,
            ),
            None => if windows {
                cmd.program@ == "cmd"@ && texts(cmd.args@) == seq!["/c"@, "npx"@] + npx_args(
                    port as nat,
                )
            } else {
                cmd.program@ == "npx"@ && texts(cmd.args@) == npx_args(port as nat)
            },
        },
{
    let flags = if windows { Some(CREATE_NO_WINDOW) } else { None };
    let mut args: Vec<String> = Vec::new();
    assert(texts(args@) =~= Seq::<Seq<char>>::empty());
    match global_bin {
        Some(bin) => {
            let ghost b = bin@;
            args.push(bin);
            assert(texts(args@) =~= seq![b]);
            push_web_args(&mut args, port);
            WebCommand {
                program: String::from_str("node"),
                args,
                current_dir: cwd,
                stdio: ChildStdio::PipedOutputNullInput,
                creation_flags: flags,
            }
        },
        None => {
            let program = if windows {
                push_arg(&mut args, "/c");
                push_arg(&mut args, "npx");
                String::from_str("cmd")
            } else {
                String::from_str("npx")
            };
            let ghost before = texts(args@);
            push_arg(&mut args, "-y");
            push_arg(&mut args, "@deepseek-ai/dsh");
            push_web_args(&mut args, port);
            assert(texts(args@) =~= before + npx_args(port as nat));
            let stdio = if windows {
                ChildStdio::Inherited
            } else {
                ChildStdio::PipedOutputNullInput
            };
            WebCommand { program, args, current_dir: cwd, stdio, creation_flags: flags }
        },
    }
}

} // verus!
