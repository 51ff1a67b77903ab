use crate::text::{joined, owned, trim, trim_of};
use vstd::prelude::*;

verus! {

/// Bound on the installation probe and on the capability check, in seconds.
pub const PROBE_TIMEOUT_SECS: u64 = 5;

/// How running the executable with `--version` went.
pub enum ProbeOutcome {
    /// The executable could not be located.
    NotFound,
    /// Spawning or waiting failed otherwise; the system's message.
    SpawnFailed(String),
    /// No exit within the bound.
    TimedOut,
    /// The process exited: whether with success, and what it printed.
    Exited { success: bool, stdout: String, stderr: String },
}

pub open spec fn not_found_text() -> Seq<char> {
    "OpenCode CLI not found. Install OpenCode and ensure `opencode` is on your PATH."@
}

pub open spec fn timeout_text() -> Seq<char> {
    "Timed out while checking OpenCode CLI. Make sure `opencode --version` runs in Terminal."@
}

pub open spec fn start_failed_text() -> Seq<char> {
    "OpenCode CLI failed to start. Try running `opencode --version` in Terminal."@
}

/// The failure text that carries the diagnostic `detail`.
pub open spec fn start_failed_detail_text(detail: Seq<char>) -> Seq<char> {
    "OpenCode CLI failed to start: "@ + detail
        + ". Try running `opencode --version` in Terminal."@
}

/// A verdict as values.
pub open spec fn verdict_view(r: Result<Option<String>, String>) -> Result<
    Option<Seq<char>>,
    Seq<char>,
> {
    match r {
        Ok(Some(v)) => Ok(Some(v@)),
        Ok(None) => Ok(None),
        Err(e) => Err(e@),
    }
}

/// The verdict on an exit, from its trimmed output texts: on success the
/// version, absent when empty; on failure the diagnostic text, preferring
/// the error stream and falling back to a generic message.
pub open spec fn exit_verdict(success: bool, out: Seq<char>, err: Seq<char>) -> Result<
    Option<Seq<char>>,
    Seq<char>,
> {
    if success {
        if out.len() == 0 {
            Ok(None)
        } else {
            Ok(Some(out))
        }
    } else {
        let detail = if err.len() == 0 {
            out
        } else {
            err
        };
        if detail.len() == 0 {
            Err(start_failed_text())
        } else {
            Err(start_failed_detail_text(detail))
        }
    }
}

/// The verdict on each probe outcome.
pub open spec fn probe_verdict_spec(o: ProbeOutcome) -> Result<Option<Seq<char>>, Seq<char>> {
    match o {
        ProbeOutcome::NotFound => Err(not_found_text()),
        ProbeOutcome::SpawnFailed(m) => Err(m@),
        ProbeOutcome::TimedOut => Err(timeout_text()),
        ProbeOutcome::Exited { success, stdout, stderr } => exit_verdict(
            success,
            trim_of(stdout@),
            trim_of(stderr@),
        ),
    }
}

/// The verdict on an exit whose output texts are already trimmed.
pub fn exit_verdict_of_trimmed(success: bool, out: &str, err: &str) -> (r: Result<
    Option<String>,
    String,
>)
    ensures
        verdict_view(r) == exit_verdict(success, out@, err@),
{
    if success {
        if out.unicode_len() == 0 {
            Ok(None)
        } else {
            Ok(Some(owned(out)))
        }
    } else {
        let detail = if err.unicode_len() == 0 {
            out
        } else {
            err
        };
        if detail.unicode_len() == 0 {
            Err(owned("OpenCode CLI failed to start. Try running `opencode --version` in Terminal."))
        } else {
            let mut m = joined("OpenCode CLI failed to start: ", detail);
            m.append(". Try running `opencode --version` in Terminal.");
            Err(m)
        }
    }
}

/// Classifies a probe: the version the executable reported (absent when it
/// printed none), or a message fit for display.
pub fn probe_verdict(o: &ProbeOutcome) -> (r: Result<Option<String>, String>)
    ensures
        verdict_view(r) == probe_verdict_spec(*o),
{
    match o {
        ProbeOutcome::NotFound => Err(
            owned(
                "OpenCode CLI not found. Install OpenCode and ensure `opencode` is on your PATH.",
            ),
        ),
        ProbeOutcome::SpawnFailed(m) => Err(m.clone()),
        ProbeOutcome::TimedOut => Err(
            owned(
                "Timed out while checking OpenCode CLI. Make sure `opencode --version` runs in Terminal.",
            ),
        ),
        ProbeOutcome::Exited { success, stdout, stderr } => exit_verdict_of_trimmed(
            *success,
            trim(stdout.as_str()),
            trim(stderr.as_str()),
        ),
    }
}

/// What the doctor reports besides the binary it used.
pub struct DoctorReport {
    pub ok: bool,
    pub version: Option<String>,
    pub acp_ok: bool,
    pub details: Option<String>,
}

/// Summarises the two checks: all is well when a version was reported and
/// the protocol subcommand ran.
pub fn doctor_report(version: Option<String>, acp_ok: bool) -> (r: DoctorReport)
    ensures
        r.ok == (version is Some && acp_ok),
        r.version == version,
        r.acp_ok == acp_ok,
        acp_ok ==> r.details is None,
        !acp_ok ==> r.details is Some && r.details->0@ == "Failed to run `opencode acp --help`."@,
{
    let ok = version.is_some() && acp_ok;
    let details = if acp_ok {
        None
    } else {
        Some(owned("Failed to run `opencode acp --help`."))
    };
    DoctorReport { ok, version, acp_ok, details }
}

} // verus!
