//! The decisions both executables take around their platform calls: which
//! return codes are fatal, what the null-handle check means, and how the
//! target's exit code travels back unchanged. The executables perform the
//! calls and hand the raw results to these functions; every OS-level
//! failure is terminal for the current invocation, nothing is retried.

use crate::error::{ElevError, PlatformStep};
use vstd::prelude::*;

verus! {

pub const E_INVALIDARG: u32 = 0x8007_0057;

pub const E_OUTOFMEMORY: u32 = 0x8007_000E;

pub const E_UNEXPECTED: u32 = 0x8000_FFFF;

pub const WAIT_FAILED: u32 = 0xFFFF_FFFF;

/// The COM initialization codes the requester treats as fatal; every other
/// code ("already initialized" styles included) is non-fatal per the
/// platform contract.
pub open spec fn com_init_fatal(hr: u32) -> bool {
    hr == E_INVALIDARG || hr == E_OUTOFMEMORY || hr == E_UNEXPECTED
}

pub open spec fn com_init_outcome_spec(hr: u32, code: u32, message: String) -> Result<
    (),
    ElevError,
> {
    if com_init_fatal(hr) {
        Err(ElevError::Platform { step: PlatformStep::ComInit, code, message })
    } else {
        Ok(())
    }
}

/// Classifies the result of initializing the COM subsystem in
/// apartment-threaded mode; `last_error` and `os_message` come from the
/// OS's last-error facility at the moment of the call.
pub fn com_init_outcome(hr: u32, last_error: u32, os_message: String) -> (r: Result<(), ElevError>)
    ensures
        r == com_init_outcome_spec(hr, last_error, os_message),
{
    if hr == E_INVALIDARG || hr == E_OUTOFMEMORY || hr == E_UNEXPECTED {
        Err(
            ElevError::Platform {
                step: PlatformStep::ComInit,
                code: last_error,
                message: os_message,
            },
        )
    } else {
        Ok(())
    }
}

pub open spec fn shell_exec_outcome_spec(
    succeeded: bool,
    handle_is_null: bool,
    code: u32,
    message: String,
) -> Result<(), ElevError> {
    if !succeeded {
        Err(ElevError::Platform { step: PlatformStep::ShellExecute, code, message })
    } else if handle_is_null {
        Err(ElevError::NullProcessHandle)
    } else {
        Ok(())
    }
}

/// Classifies the result of the elevation request: a reported failure
/// carries the platform's last error, and a reported success without a
/// process handle is an inconsistent state, never a silent success.
pub fn shell_exec_outcome(
    succeeded: bool,
    handle_is_null: bool,
    last_error: u32,
    os_message: String,
) -> (r: Result<(), ElevError>)
    ensures
        r == shell_exec_outcome_spec(succeeded, handle_is_null, last_error, os_message),
{
    if !succeeded {
        Err(
            ElevError::Platform {
                step: PlatformStep::ShellExecute,
                code: last_error,
                message: os_message,
            },
        )
    } else if handle_is_null {
        Err(ElevError::NullProcessHandle)
    } else {
        Ok(())
    }
}

pub open spec fn wait_outcome_spec(wait_result: u32, code: u32, message: String) -> Result<
    (),
    ElevError,
> {
    if wait_result == WAIT_FAILED {
        Err(ElevError::Platform { step: PlatformStep::Wait, code, message })
    } else {
        Ok(())
    }
}

/// Classifies the result of the indefinite wait for the elevated process to
/// terminate.
pub fn wait_outcome(wait_result: u32, last_error: u32, os_message: String) -> (r: Result<
    (),
    ElevError,
>)
    ensures
        r == wait_outcome_spec(wait_result, last_error, os_message),
{
    if wait_result == WAIT_FAILED {
        Err(ElevError::Platform { step: PlatformStep::Wait, code: last_error, message: os_message })
    } else {
        Ok(())
    }
}

pub open spec fn exit_code_outcome_spec(
    succeeded: bool,
    exit_code: u32,
    code: u32,
    message: String,
) -> Result<i32, ElevError> {
    if !succeeded {
        Err(ElevError::Platform { step: PlatformStep::ExitCode, code, message })
    } else {
        Ok(exit_code as i32)
    }
}

/// Classifies the retrieval of the elevated process's exit status and
/// narrows it to the signed 32-bit code the caller reports.
pub fn exit_code_outcome(
    succeeded: bool,
    exit_code: u32,
    last_error: u32,
    os_message: String,
) -> (r: Result<i32, ElevError>)
    ensures
        r == exit_code_outcome_spec(succeeded, exit_code, last_error, os_message),
{
    if !succeeded {
        Err(
            ElevError::Platform {
                step: PlatformStep::ExitCode,
                code: last_error,
                message: os_message,
            },
        )
    } else {
        Ok(exit_code as i32)
    }
}

pub open spec fn console_outcome_spec(
    step: PlatformStep,
    succeeded: bool,
    code: u32,
    message: String,
) -> Result<(), ElevError> {
    if succeeded {
        Ok(())
    } else {
        Err(ElevError::Platform { step, code, message })
    }
}

/// Classifies the elevated runner's detach from its implicit console.
pub fn free_console_outcome(succeeded: bool, last_error: u32, os_message: String) -> (r: Result<
    (),
    ElevError,
>)
    ensures
        r == console_outcome_spec(PlatformStep::FreeConsole, succeeded, last_error, os_message),
{
    if succeeded {
        Ok(())
    } else {
        Err(
            ElevError::Platform {
                step: PlatformStep::FreeConsole,
                code: last_error,
                message: os_message,
            },
        )
    }
}

/// Classifies the elevated runner's attach to the original caller's
/// console.
pub fn attach_console_outcome(succeeded: bool, last_error: u32, os_message: String) -> (r: Result<
    (),
    ElevError,
>)
    ensures
        r == console_outcome_spec(PlatformStep::AttachConsole, succeeded, last_error, os_message),
{
    if succeeded {
        Ok(())
    } else {
        Err(
            ElevError::Platform {
                step: PlatformStep::AttachConsole,
                code: last_error,
                message: os_message,
            },
        )
    }
}

/// How spawning the target command ended: it ran to termination with an
/// exit code, its executable was missing, or the spawn failed otherwise.
pub enum SpawnStatus {
    Spawned { exit_code: i32 },
    NotFound,
    Failed { message: String },
}

pub open spec fn spawn_outcome_spec(program: String, status: SpawnStatus) -> Result<
    i32,
    ElevError,
> {
    match status {
        SpawnStatus::Spawned { exit_code } => Ok(exit_code),
        SpawnStatus::NotFound => Err(ElevError::SpawnNotFound { program }),
        SpawnStatus::Failed { message } => Err(ElevError::SpawnFailed { message }),
    }
}

/// Turns the spawn of the target command into the runner's own result: the
/// child's exit code travels through unchanged, a missing executable gets
/// the distinguished "cannot find" failure, and any other spawn failure is
/// surfaced as the OS rendered it.
pub fn spawn_outcome(program: String, status: SpawnStatus) -> (r: Result<i32, ElevError>)
    ensures
        r == spawn_outcome_spec(program, status),
{
    match status {
        SpawnStatus::Spawned { exit_code } => Ok(exit_code),
        SpawnStatus::NotFound => Err(ElevError::SpawnNotFound { program }),
        SpawnStatus::Failed { message } => Err(ElevError::SpawnFailed { message }),
    }
}

/// Exit-code fidelity: a target command that exits with code `k` makes the
/// whole chain report `k`. The runner forwards `k` unchanged; the OS stores
/// it as the elevated process's unsigned exit status `k as u32`; and the
/// requester's retrieval narrows that status back to exactly `k`.
pub proof fn lemma_exit_code_fidelity(program: String, k: i32, last_error: u32, os_message: String)
    ensures
        spawn_outcome_spec(program, SpawnStatus::Spawned { exit_code: k }) == Ok::<i32, ElevError>(
            k,
        ),
        exit_code_outcome_spec(true, k as u32, last_error, os_message) == Ok::<i32, ElevError>(k),
{
    assert((k as u32) as i32 == k) by (bit_vector);
}

/// The requester hands its whole argument tail to the parsing collaborator
/// exactly when the first argument asks for help or version text.
pub fn is_help_or_version(arg: Option<&String>) -> (r: bool)
    ensures
        r == match arg {
            Some(a) => a@ == "-V"@ || a@ == "--version"@ || a@ == "-h"@ || a@ == "--help"@,
            None => false,
        },
{
    match arg {
        Some(a) => *a == String::from_str("-V") || *a == String::from_str("--version") || *a
            == String::from_str("-h") || *a == String::from_str("--help"),
        None => false,
    }
}

} // verus!
