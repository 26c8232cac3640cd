//! Tearing the server down: which port's listeners to kill, how to ask for
//! them and how to kill them, and when the Windows job object is usable.

use vstd::prelude::*;
use crate::dsh::{texts, url_port, url_port_of};
use crate::text::{
    decimal, lemma_number_field, lemma_number_field_unique, number_field, lemma_listed_read_back, listed, parse_u32_words, parsed_u32s, push_decimal, words,
};

verus! {

/// The port whose listeners are killed on shutdown: the port of the stored
/// server URL, none when no URL was stored.
pub fn cleanup_port(url: &Option<String>) -> (port: Option<u16>)
    ensures
        match url {
            Some(u) => port == Some(url_port_of(u@)),
            None => port is None,
        },
{
    match url {
        Some(u) => Some(url_port(u.as_str())),
        None => None,
    }
}

/// The PowerShell script that prints, one per line and without repeats, the
/// ids of the processes listening on `port`.
pub open spec fn listener_script_text(port: nat) -> Seq<char> {
    "(Get-NetTCPConnection -LocalPort "@ + decimal(port)
        + " -State Listen -ErrorAction SilentlyContinue).OwningProcess | Sort-Object -Unique"@
}

/// Law: the listener query names the port it is asked for: right after
/// `-LocalPort ` stands a digit run, ended by a space, that reads back as the
/// port.
pub proof fn lemma_listener_script_names_port(port: u16)
    ensures
        listener_script_text(port as nat).take("(Get-NetTCPConnection -LocalPort "@.len() as int)
            == "(Get-NetTCPConnection -LocalPort "@,
        exists|j: int|
            number_field(
                listener_script_text(port as nat),
                "(Get-NetTCPConnection -LocalPort "@.len() as int,
                j,
                port as nat,
                u16::MAX as nat,
            ) && listener_script_text(port as nat)[j] == ' ',
{
    let tail = " -State Listen -ErrorAction SilentlyContinue).OwningProcess | Sort-Object -Unique"@;
    reveal_strlit(" -State Listen -ErrorAction SilentlyContinue).OwningProcess | Sort-Object -Unique");
    let d = decimal(port as nat);
    lemma_number_field("(Get-NetTCPConnection -LocalPort "@, port as nat, tail, u16::MAX as nat);
    let j = ("(Get-NetTCPConnection -LocalPort "@.len() + d.len()) as int;
    assert(listener_script_text(port as nat) =~= "(Get-NetTCPConnection -LocalPort "@ + d + tail);
    assert(listener_script_text(port as nat)[j] == tail[0]);
}

/// Law: different ports give different listener queries.
pub proof fn lemma_listener_script_injective(p: u16, q: u16)
    ensures
        p != q ==> listener_script_text(p as nat) != listener_script_text(q as nat),
{
    if listener_script_text(p as nat) == listener_script_text(q as nat) {
        lemma_listener_script_names_port(p);
        lemma_listener_script_names_port(q);
        let s = listener_script_text(p as nat);
        let i = "(Get-NetTCPConnection -LocalPort "@.len() as int;
        let j1 = choose|j: int| number_field(s, i, j, p as nat, u16::MAX as nat) && s[j] == ' ';
        let j2 = choose|j: int|
            number_field(listener_script_text(q as nat), i, j, q as nat, u16::MAX as nat)
                && listener_script_text(q as nat)[j] == ' ';
        lemma_number_field_unique(s, i, j1, j2, p as nat, q as nat, u16::MAX as nat);
    }
}

/// The arguments of `powershell` that list the processes listening on
/// `port`.
pub fn listener_query_args(port: u16) -> (args: Vec<String>)
    ensures
        texts(args@) == seq![
            "-NoProfile"@,
            "-WindowStyle"@,
            "Hidden"@,
            "-Command"@,
            listener_script_text(port as nat),
        ],
{
    let mut script = String::from_str("(Get-NetTCPConnection -LocalPort ");
    push_decimal(&mut script, port as u64);
    script.append(" -State Listen -ErrorAction SilentlyContinue).OwningProcess | Sort-Object -Unique");
    let mut args: Vec<String> = Vec::new();
    args.push(String::from_str("-NoProfile"));
    args.push(String::from_str("-WindowStyle"));
    args.push(String::from_str("Hidden"));
    args.push(String::from_str("-Command"));
    args.push(script);
    assert(texts(args@) =~= seq![
        "-NoProfile"@,
        "-WindowStyle"@,
        "Hidden"@,
        "-Command"@,
        listener_script_text(port as nat),
    ]);
    args
}

/// The process ids in the output of the listener query: its
/// whitespace-separated words that are `u32` numbers, in order.
pub fn listener_pids(output: &str) -> (pids: Vec<u32>)
    ensures
        pids@ == parsed_u32s(words(output@)),
{
    parse_u32_words(output)
}

/// Law: the ids that the listener query prints, one per line, are all read
/// back, in order, by `listener_pids`.
pub proof fn lemma_listener_pids_read_back(pids: Seq<u32>)
    ensures
        parsed_u32s(words(listed(pids, "\r\n"@))) == pids,
{
    reveal_strlit("\r\n");
    lemma_listed_read_back(pids, "\r\n"@);
}

/// The arguments of `taskkill` that kill process `pid` with all its
/// descendants, forcibly.
pub fn taskkill_args(pid: u32) -> (args: Vec<String>)
    ensures
        texts(args@) == seq!["/PID"@, decimal(pid as nat), "/T"@, "/F"@],
{
    let mut id = String::new();
    push_decimal(&mut id, pid as u64);
    assert(id@ =~= decimal(pid as nat));
    let mut args: Vec<String> = Vec::new();
    args.push(String::from_str("/PID"));
    args.push(id);
    args.push(String::from_str("/T"));
    args.push(String::from_str("/F"));
    assert(texts(args@) =~= seq!["/PID"@, decimal(pid as nat), "/T"@, "/F"@]);
    args
}

/// The job object handle to act on: the one created, unless there is none
/// or creating it failed (stored as 0).
pub fn live_job(slot: Option<isize>) -> (job: Option<isize>)
    ensures
        job == (match slot {
            Some(h) => if h != 0 { Some(h) } else { None::<isize> },
            None => None::<isize>,
        }),
{
    match slot {
        Some(h) => if h != 0 { Some(h) } else { None },
        None => None,
    }
}

} // verus!
