//! The supervisor's decisions: starting it once, reading the outcome of a
//! launch, waiting for the server to answer, and the status it reports.

use vstd::prelude::*;
use crate::dsh::{url_port, url_port_of};
use crate::text::{decimal, push_decimal, trim, trimmed};

verus! {

/// How long the supervisor waits for the server to answer HTTP, in seconds.
pub const STARTUP_TIMEOUT_SECS: u64 = 180;

/// How long a fresh launch is given before checking that it did not exit at
/// once, in seconds.
pub const LAUNCH_GRACE_SECS: u64 = 3;

/// The pause between two rounds of waiting for the server, in milliseconds.
pub const WAIT_INTERVAL_MILLIS: u64 = 500;

/// What the shell reports about the server: the stage (`""` before the
/// supervisor has finished, then `"ready"` or `"error"`), the error message
/// and the URL the server is reached under.
pub struct Status {
    pub stage: String,
    pub message: Option<String>,
    pub url: Option<String>,
}

impl Default for Status {
    /// The status before the supervisor has finished: empty stage, no
    /// message, no URL.
    fn default() -> (s: Self)
        ensures
            s.stage@ == Seq::<char>::empty(),
            s.message is None,
            s.url is None,
    {
        Status { stage: String::new(), message: None, url: None }
    }
}

/// The status once the supervisor has finished with `result`: the server's
/// URL when it came up, the error that stopped it otherwise.
pub fn status_after(result: Result<String, String>) -> (s: Status)
    ensures
        match result {
            Ok(url) => s.stage@ == "ready"@ && s.message is None && s.url == Some(url),
            Err(e) => s.stage@ == "error"@ && s.message == Some(e) && s.url is None,
        },
{
    match result {
        Ok(url) => Status { stage: String::from_str("ready"), message: None, url: Some(url) },
        Err(e) => Status { stage: String::from_str("error"), message: Some(e), url: None },
    }
}

/// Whether a request for the status starts the supervisor, given whether it
/// was started before.
pub open spec fn claim_launches(started: bool) -> bool {
    !started
}

/// Marks the supervisor as started and says whether this caller is the one
/// that starts it: only the first caller does.
pub fn claim_spawn(started: &mut bool) -> (launch: bool)
    ensures
        launch == claim_launches(*old(started)),
        *final(started),
{
    let launch = !*started;
    *started = true;
    launch
}

/// How many of `n` successive claims start the supervisor, the flag being
/// `started` before the first.
pub open spec fn launches_of_claims(started: bool, n: nat) -> nat
    decreases n,
{
    if n == 0 {
        0
    } else {
        (if claim_launches(started) { 1nat } else { 0nat }) + launches_of_claims(true, (n - 1) as nat)
    }
}

/// Law: however often the status is asked for, the supervisor is started
/// once, by the first request, and never again.
pub proof fn lemma_supervisor_starts_once(n: nat)
    ensures
        launches_of_claims(false, n) == (if n > 0 { 1nat } else { 0nat }),
        launches_of_claims(true, n) == 0,
    decreases n,
{
    if n > 0 {
        lemma_supervisor_starts_once((n - 1) as nat);
    }
}

/// The text of the error when `dsh` was not launched before waiting for it.
pub open spec fn not_spawned_text() -> Seq<char> {
    "dsh not spawned yet"@
}

/// What waiting for the server starts from: the stored URL and the port it
/// names, or an error when no URL was stored.
pub fn wait_target(url: Option<String>) -> (r: Result<(String, u16), String>)
    ensures
        match url {
            None => r is Err && r->Err_0@ == not_spawned_text(),
            Some(u) => r == Ok::<(String, u16), String>((u, url_port_of(u@))),
        },
{
    match url {
        None => Err(String::from_str("dsh not spawned yet")),
        Some(u) => {
            let port = url_port(u.as_str());
            Ok((u, port))
        },
    }
}

/// What one round of waiting for the server found.
pub enum WaitRound {
    /// The time allowed for the server to come up has passed.
    Expired,
    /// The server's port answers HTTP.
    Serving,
    /// The launched process has exited, with this status.
    Exited(String),
    /// The server is still starting.
    Starting,
}

/// The text of the error when the server did not come up within
/// `timeout_secs` seconds.
pub open spec fn not_ready_text(timeout_secs: nat, url: Seq<char>) -> Seq<char> {
    "dsh not ready after "@ + decimal(timeout_secs) + "s at "@ + url
}

/// The text of the error when the launched process exited while starting.
pub open spec fn exited_during_startup_text(status: Seq<char>) -> Seq<char> {
    "dsh exited during startup (exit "@ + status + ")"@
}

/// Decides a round of waiting for the server at `url`: its URL once it
/// answers, an error when the process exited or the time ran out, nothing
/// (wait and look again) while it is still starting.
pub fn wait_ready_round(url: &String, timeout_secs: u64, round: WaitRound) -> (r: Option<
    Result<String, String>,
>)
    ensures
        match round {
            WaitRound::Expired => r is Some && r->Some_0 is Err && r->Some_0->Err_0@
                == not_ready_text(timeout_secs as nat, url@),
            WaitRound::Serving => r == Some(Ok::<String, String>(*url)),
            WaitRound::Exited(status) => r is Some && r->Some_0 is Err && r->Some_0->Err_0@
                == exited_during_startup_text(status@),
            WaitRound::Starting => r is None,
        },
{
    match round {
        WaitRound::Expired => {
            let mut msg = String::from_str("dsh not ready after ");
            push_decimal(&mut msg, timeout_secs);
            msg.append("s at ");
            msg.append(url.as_str());
            Some(Err(msg))
        },
        WaitRound::Serving => Some(Ok(url.clone())),
        WaitRound::Exited(status) => {
            let mut msg = String::from_str("dsh exited during startup (exit ");
            msg.append(status.as_str());
            msg.append(")");
            Some(Err(msg))
        },
        WaitRound::Starting => None,
    }
}

/// The text of the error when the server process could not be started.
pub open spec fn launch_failed_text(error: Seq<char>) -> Seq<char> {
    "failed to launch npx dsh: "@ + error
}

/// The error when the server process could not be started.
pub fn launch_failed_message(error: &str) -> (msg: String)
    ensures
        msg@ == launch_failed_text(error@),
{
    let mut msg = String::from_str("failed to launch npx dsh: ");
    msg.append(error);
    msg
}

/// What polling the freshly launched process found, a few seconds after it
/// was started.
pub enum LaunchPoll {
    /// It has exited already, with this status and this error output.
    Exited { status: String, stderr: String },
    /// It is still running.
    Running,
    /// Polling it failed with this error.
    PollFailed(String),
}

/// The text of the error when the launched process exited at once.
pub open spec fn exited_immediately_text(status: Seq<char>, stderr: Seq<char>) -> Seq<char> {
    "dsh exited immediately (exit "@ + status + "). stderr: "@ + trim(stderr)
}

/// The text of the error when the launched process could not be polled.
pub open spec fn poll_failed_text(error: Seq<char>) -> Seq<char> {
    "failed to poll dsh process: "@ + error
}

/// Decides whether a launch went well: a process that exited at once, or
/// that could not be polled, is an error; one still running is kept.
pub fn launch_outcome(poll: LaunchPoll) -> (r: Result<(), String>)
    ensures
        match poll {
            LaunchPoll::Exited { status, stderr } => r is Err && r->Err_0@
                == exited_immediately_text(status@, stderr@),
            LaunchPoll::Running => r is Ok,
            LaunchPoll::PollFailed(e) => r is Err && r->Err_0@ == poll_failed_text(e@),
        },
{
    match poll {
        LaunchPoll::Exited { status, stderr } => {
            let mut msg = String::from_str("dsh exited immediately (exit ");
            msg.append(status.as_str());
            msg.append("). stderr: ");
            let t = trimmed(stderr.as_str());
            msg.append(t.as_str());
            Err(msg)
        },
        LaunchPoll::Running => Ok(()),
        LaunchPoll::PollFailed(e) => {
            let mut msg = String::from_str("failed to poll dsh process: ");
            msg.append(e.as_str());
            Err(msg)
        },
    }
}

} // verus!
