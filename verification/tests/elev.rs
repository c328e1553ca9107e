use elev::encode::{encode_windows_args, into_wide_str};
use elev::error::{error_line, io_err, ElevError, PlatformStep};
use elev::protocol::{
    attach_console_outcome, com_init_outcome, exit_code_outcome, free_console_outcome,
    is_help_or_version, shell_exec_outcome, spawn_outcome, wait_outcome, SpawnStatus,
    E_INVALIDARG, E_OUTOFMEMORY, E_UNEXPECTED, WAIT_FAILED,
};
use elev::resolve::{
    resolve_step, runner_presence, runner_sibling, verify_runner, LinkStep, Resolution,
};
use sha2::Digest;

fn w(s: &str) -> Vec<u16> {
    s.encode_utf16().collect()
}

#[test]
fn escape_args() {
    let args = vec![w("a b c"), w("d"), w("e")];
    let escaped = into_wide_str(w(r#""a b c" d e"#));
    assert_eq!(escaped, encode_windows_args(&args));

    let args = vec![w(r#"ab"c"#), w(r#"\"#), w(r#"d"#)];
    let escaped = into_wide_str(w(r#"ab\"c \ d"#));
    assert_eq!(escaped, encode_windows_args(&args));

    let args = vec![w(r#"a\\\b"#), w(r#"de fg"#), w(r#"h"#)];
    let escaped = into_wide_str(w(r#"a\\\b "de fg" h"#));
    assert_eq!(escaped, encode_windows_args(&args));

    let args = vec![w(r#"a\"b"#), w(r#"c"#), w(r#"d"#)];
    let escaped = into_wide_str(w(r#"a\\\"b c d"#));
    assert_eq!(escaped, encode_windows_args(&args));

    let args = vec![w(r#"a\\b c"#), w(r#"d"#), w(r#"e"#)];
    let escaped = into_wide_str(w(r#""a\\b c" d e"#));
    assert_eq!(escaped, encode_windows_args(&args));
}

#[test]
fn encode_no_arguments_is_bare_terminator() {
    let args: Vec<Vec<u16>> = vec![];
    assert_eq!(encode_windows_args(&args), vec![0u16]);
}

#[test]
fn encode_tab_argument_is_quoted() {
    let args = vec![w("a\tb")];
    assert_eq!(encode_windows_args(&args), into_wide_str(w("\"a\tb\"")));
}

#[test]
fn into_wide_str_appends_terminator() {
    assert_eq!(into_wide_str(w("ab")), vec![0x61u16, 0x62, 0]);
}

#[test]
fn verify_runner_accepts_matching_digest() {
    let contents = b"the runner binary".to_vec();
    let pinned = hex::encode(sha2::Sha256::digest(&contents));
    let r = verify_runner("C:\\app\\elev-run.exe".to_string(), Some(pinned), &contents);
    assert_eq!(r, Ok("C:\\app\\elev-run.exe".to_string()));
}

#[test]
fn verify_runner_rejects_altered_contents() {
    let contents = b"the runner binary".to_vec();
    let pinned = hex::encode(sha2::Sha256::digest(&contents));
    let altered = b"the runner binarY".to_vec();
    let r = verify_runner("C:\\app\\elev-run.exe".to_string(), Some(pinned), &altered);
    let err = r.unwrap_err();
    assert_eq!(
        err,
        ElevError::WrongRunnerVersion {
            path: "C:\\app\\elev-run.exe".to_string()
        }
    );
    assert_eq!(
        err.message(),
        "'C:\\app\\elev-run.exe' is not the correct version of elev-run"
    );
}

#[test]
fn verify_runner_known_digest_of_empty_input() {
    let contents: Vec<u8> = Vec::new();
    let pinned = "e3b0c44298fc1c149afbf4c8996fb92427ae41e4649b934ca495991b7852b855".to_string();
    let r = verify_runner("elev-run.exe".to_string(), Some(pinned), &contents);
    assert_eq!(r, Ok("elev-run.exe".to_string()));
}

#[test]
fn verify_runner_case_sensitive_hex() {
    let contents: Vec<u8> = Vec::new();
    let pinned = "E3B0C44298FC1C149AFBF4C8996FB92427AE41E4649B934CA495991B7852B855".to_string();
    let r = verify_runner("elev-run.exe".to_string(), Some(pinned), &contents);
    assert!(matches!(r, Err(ElevError::WrongRunnerVersion { .. })));
}

#[test]
fn missing_pinned_digest_always_fails() {
    let contents = b"a perfectly good runner".to_vec();
    let r = verify_runner("C:\\app\\elev-run.exe".to_string(), None, &contents);
    let err = r.unwrap_err();
    assert_eq!(err, ElevError::MissingPinnedDigest);
    assert_eq!(
        err.message(),
        "elev was compiled without specifying the hash of elev-run, running it is not safe"
    );
}

#[test]
fn symlink_chain_resolves_to_final_directory() {
    let mut current = "C:\\links\\elev.exe".to_string();
    let chain = vec![
        LinkStep::Link {
            target: "D:\\hop\\elev.exe".to_string(),
        },
        LinkStep::Link {
            target: "C:\\real\\elev.exe".to_string(),
        },
        LinkStep::NotLink,
    ];
    let mut resolved = None;
    for step in chain {
        match resolve_step(current.clone(), step) {
            Resolution::Continue { current: next } => current = next,
            Resolution::Resolved { path } => {
                resolved = Some(path);
                break;
            }
        }
    }
    let resolved = resolved.expect("chain must terminate");
    assert_eq!(resolved, "C:\\real\\elev.exe");
    assert_eq!(runner_sibling(&resolved), "C:\\real\\elev-run.exe");
}

#[test]
fn runner_sibling_shapes() {
    assert_eq!(
        runner_sibling(&"C:\\dir\\elev.exe".to_string()),
        "C:\\dir\\elev-run.exe"
    );
    assert_eq!(
        runner_sibling(&"C:/dir/sub/elev.exe".to_string()),
        "C:/dir/sub/elev-run.exe"
    );
    assert_eq!(runner_sibling(&"elev.exe".to_string()), "elev-run.exe");
}

#[test]
fn exit_code_fidelity_through_the_chain() {
    for k in [0i32, 1, 255] {
        // the runner forwards the child's code unchanged
        let runner_side = spawn_outcome(
            "C:\\t.exe".to_string(),
            SpawnStatus::Spawned { exit_code: k },
        );
        assert_eq!(runner_side, Ok(k));
        // the requester reads the same value back as the process exit status
        let requester_side = exit_code_outcome(true, k as u32, 0, String::new());
        assert_eq!(requester_side, Ok(k));
    }
}

#[test]
fn missing_target_gets_distinguished_message() {
    let r = spawn_outcome("C:\\tools\\frob.exe".to_string(), SpawnStatus::NotFound);
    let err = r.unwrap_err();
    assert_eq!(
        err,
        ElevError::SpawnNotFound {
            program: "C:\\tools\\frob.exe".to_string()
        }
    );
    assert_eq!(err.message(), "cannot find 'C:\\tools\\frob.exe'");

    let other = spawn_outcome(
        "C:\\tools\\frob.exe".to_string(),
        SpawnStatus::Failed {
            message: "access is denied".to_string(),
        },
    )
    .unwrap_err();
    assert_eq!(other.message(), "access is denied");
}

#[test]
fn com_init_fatal_codes() {
    for hr in [E_INVALIDARG, E_OUTOFMEMORY, E_UNEXPECTED] {
        let r = com_init_outcome(hr, 5, "os says no".to_string());
        assert_eq!(
            r,
            Err(ElevError::Platform {
                step: PlatformStep::ComInit,
                code: 5,
                message: "os says no".to_string()
            })
        );
    }
    // success, "already initialized" and other codes are non-fatal
    for hr in [0u32, 1, 0x8001_0106] {
        assert_eq!(com_init_outcome(hr, 5, "ignored".to_string()), Ok(()));
    }
}

#[test]
fn shell_exec_outcomes() {
    let failed = shell_exec_outcome(false, false, 1223, "cancelled".to_string());
    assert_eq!(
        failed,
        Err(ElevError::Platform {
            step: PlatformStep::ShellExecute,
            code: 1223,
            message: "cancelled".to_string()
        })
    );
    let null_handle = shell_exec_outcome(true, true, 0, String::new());
    assert_eq!(null_handle, Err(ElevError::NullProcessHandle));
    assert_eq!(
        null_handle.unwrap_err().message(),
        "the process handle is null"
    );
    assert_eq!(shell_exec_outcome(true, false, 0, String::new()), Ok(()));
}

#[test]
fn wait_outcomes() {
    assert_eq!(wait_outcome(0, 0, String::new()), Ok(()));
    assert!(matches!(
        wait_outcome(WAIT_FAILED, 6, "bad handle".to_string()),
        Err(ElevError::Platform {
            step: PlatformStep::Wait,
            code: 6,
            ..
        })
    ));
}

#[test]
fn exit_code_retrieval_failure_is_fatal() {
    let r = exit_code_outcome(false, 0, 6, "bad handle".to_string());
    assert!(matches!(
        r,
        Err(ElevError::Platform {
            step: PlatformStep::ExitCode,
            code: 6,
            ..
        })
    ));
}

#[test]
fn console_outcomes() {
    assert_eq!(free_console_outcome(true, 0, String::new()), Ok(()));
    assert!(matches!(
        free_console_outcome(false, 6, "x".to_string()),
        Err(ElevError::Platform {
            step: PlatformStep::FreeConsole,
            ..
        })
    ));
    assert_eq!(attach_console_outcome(true, 0, String::new()), Ok(()));
    assert!(matches!(
        attach_console_outcome(false, 5, "y".to_string()),
        Err(ElevError::Platform {
            step: PlatformStep::AttachConsole,
            ..
        })
    ));
}

#[test]
fn runner_presence_gate() {
    let present = runner_presence("C:\\app\\elev-run.exe".to_string(), true);
    assert_eq!(present, Ok("C:\\app\\elev-run.exe".to_string()));
    let missing = runner_presence("C:\\app\\elev-run.exe".to_string(), false);
    let err = missing.unwrap_err();
    assert_eq!(
        err,
        ElevError::RunnerNotFound {
            tried: "C:\\app\\elev-run.exe".to_string()
        }
    );
    assert_eq!(
        err.message(),
        "cannot find elev-run (tried 'C:\\app\\elev-run.exe')"
    );
}

#[test]
fn runner_not_found_message() {
    let err = ElevError::RunnerNotFound {
        tried: "C:\\app\\elev-run.exe".to_string(),
    };
    assert_eq!(
        err.message(),
        "cannot find elev-run (tried 'C:\\app\\elev-run.exe')"
    );
}

#[test]
fn error_line_prefix() {
    assert_eq!(
        error_line(&"something broke".to_string()),
        "error: something broke"
    );
}

#[test]
fn io_err_wraps_message() {
    let r: Result<i32, ElevError> = io_err("oops".to_string());
    let err = r.unwrap_err();
    assert_eq!(
        err,
        ElevError::Other {
            message: "oops".to_string()
        }
    );
    assert_eq!(err.message(), "oops");
}

#[test]
fn help_and_version_flags() {
    for flag in ["-V", "--version", "-h", "--help"] {
        assert!(is_help_or_version(Some(&flag.to_string())));
    }
    assert!(!is_help_or_version(Some(&"-x".to_string())));
    assert!(!is_help_or_version(Some(&"run".to_string())));
    assert!(!is_help_or_version(None));
}
