//! The failure taxonomy of the elevation chain and the single-line messages
//! shown for each failure.

use vstd::prelude::*;
use vstd::string::StringExecFns;

verus! {

/// Which platform call failed; each maps the OS's last-error facility into
/// an explicit error value at the boundary.
#[derive(Clone, Copy, Debug, PartialEq, Eq, Structural)]
pub enum PlatformStep {
    ComInit,
    ShellExecute,
    Wait,
    ExitCode,
    FreeConsole,
    AttachConsole,
}

/// Every failure the chain can surface. All are fatal to the current
/// invocation; none is retried.
#[derive(Debug, PartialEq, Eq)]
pub enum ElevError {
    /// The runner binary is not at its expected place next to the resolved
    /// requester binary.
    RunnerNotFound { tried: String },
    /// No pinned digest was embedded at build time; elevating an unverified
    /// binary is refused outright.
    MissingPinnedDigest,
    /// The runner binary's content digest does not match the pinned one.
    WrongRunnerVersion { path: String },
    /// A platform call failed; `code` and `message` come from the OS's
    /// last-error facility.
    Platform { step: PlatformStep, code: u32, message: String },
    /// The elevation request reported success yet handed back no process
    /// handle; an inconsistent state rather than a silent success.
    NullProcessHandle,
    /// The target executable of the elevated run does not exist.
    SpawnNotFound { program: String },
    /// The target executable could not be spawned for another reason;
    /// `message` is the OS-rendered description.
    SpawnFailed { message: String },
    /// A filesystem operation during runner resolution failed; `message` is
    /// the OS-rendered description.
    Filesystem { message: String },
    /// A failure described only by a plain message.
    Other { message: String },
}

/// The single human-readable line shown for a failure.
pub open spec fn message_of(e: ElevError) -> Seq<char> {
    match e {
        ElevError::RunnerNotFound { tried } => "cannot find elev-run (tried '"@ + tried@ + "')"@,
        ElevError::MissingPinnedDigest => "elev was compiled without specifying the hash of elev-run, running it is not safe"@,
        ElevError::WrongRunnerVersion { path } => "'"@ + path@
            + "' is not the correct version of elev-run"@,
        ElevError::Platform { message, .. } => message@,
        ElevError::NullProcessHandle => "the process handle is null"@,
        ElevError::SpawnNotFound { program } => "cannot find '"@ + program@ + "'"@,
        ElevError::SpawnFailed { message } => message@,
        ElevError::Filesystem { message } => message@,
        ElevError::Other { message } => message@,
    }
}

impl ElevError {
    /// Renders the failure as its single display line.
    pub fn message(&self) -> (r: String)
        ensures
            r@ == message_of(*self),
    {
        match self {
            ElevError::RunnerNotFound { tried } => {
                let mut s = String::new();
                s.append("cannot find elev-run (tried '");
                s.append(tried.as_str());
                s.append("')");
                s
            },
            ElevError::MissingPinnedDigest => {
                let mut s = String::new();
                s.append(
                    "elev was compiled without specifying the hash of elev-run, running it is not safe",
                );
                s
            },
            ElevError::WrongRunnerVersion { path } => {
                let mut s = String::new();
                s.append("'");
                s.append(path.as_str());
                s.append("' is not the correct version of elev-run");
                s
            },
            ElevError::Platform { message, .. } => message.clone(),
            ElevError::NullProcessHandle => {
                let mut s = String::new();
                s.append("the process handle is null");
                s
            },
            ElevError::SpawnNotFound { program } => {
                let mut s = String::new();
                s.append("cannot find '");
                s.append(program.as_str());
                s.append("'");
                s
            },
            ElevError::SpawnFailed { message } => message.clone(),
            ElevError::Filesystem { message } => message.clone(),
            ElevError::Other { message } => message.clone(),
        }
    }
}

/// The line the error reporter prints to standard error, before coloring.
pub fn error_line(msg: &String) -> (r: String)
    ensures
        r@ == "error: "@ + msg@,
{
    let mut s = String::new();
    s.append("error: ");
    s.append(msg.as_str());
    s
}

/// Builds the catch-all failure used where only a plain message is at hand.
pub fn io_err<T>(msg: String) -> (r: Result<T, ElevError>)
    ensures
        r == Err::<T, ElevError>(ElevError::Other { message: msg }),
{
    Err(ElevError::Other { message: msg })
}

} // verus!
