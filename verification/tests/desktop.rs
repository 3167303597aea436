use autopiercam::shutdown::{
    check_exit, check_response_id, connect_step, exit_wait_ms, frame_request, remaining,
    request_id, response_length, shutdown_deadline, validate_shutdown_answer,
    validate_shutdown_response, ConnectStep, ErrorBody, ExitWait, PipeOutcome, ShutdownError,
    CONTROL_PIPE_PATH,
    ShutdownResponse,
};
use autopiercam::windows_resources::{
    application_manifest, parse_version, processor_architecture, rc_path, version_resource,
    ProgramIdentity, Version,
};
use serde_json::Value;

const SECOND: u128 = 1_000_000_000;

fn success(result: &str) -> ShutdownResponse {
    ShutdownResponse {
        error: None,
        result: Some(serde_json::from_str::<Value>(result).unwrap()),
    }
}

#[test]
fn accepted_shutdown_response_is_required() {
    validate_shutdown_response(success("{ \"accepted\": true }")).unwrap();

    assert!(validate_shutdown_response(success("{}")).is_err());

    let rejected = ShutdownResponse {
        error: Some(ErrorBody {
            code: "agent_stopped".to_owned(),
            message: "the agent is already stopping".to_owned(),
        }),
        result: None,
    };
    let error = validate_shutdown_response(rejected).unwrap_err();
    assert!(error.message().contains("agent_stopped"));
}

#[test]
fn only_a_true_flag_accepts() {
    for result in [
        "{ \"accepted\": false }",
        "{ \"accepted\": \"true\" }",
        "[true]",
        "true",
        "null",
    ] {
        assert_eq!(
            validate_shutdown_response(success(result)),
            Err(ShutdownError::NotAccepted)
        );
    }
    assert_eq!(validate_shutdown_answer(None, Some(true)), Ok(()));
    assert_eq!(
        validate_shutdown_answer(None, None),
        Err(ShutdownError::NotAccepted)
    );
}

#[test]
fn shutdown_keeps_to_its_deadline() {
    assert_eq!(shutdown_deadline(5, 0), Err(ShutdownError::ZeroTimeout));
    assert_eq!(
        shutdown_deadline(1, u128::MAX),
        Err(ShutdownError::TimeoutTooLarge)
    );
    assert_eq!(shutdown_deadline(1, 2), Ok(3));
    assert_eq!(remaining(3, 1), Ok(2));
    assert_eq!(remaining(3, 3), Err(ShutdownError::TimedOut));
}

#[test]
fn busy_pipes_are_tried_again() {
    assert_eq!(
        connect_step(PipeOutcome::Connected, false, 0, 0),
        ConnectStep::Use
    );
    assert_eq!(
        connect_step(PipeOutcome::NotFound, true, SECOND, 0),
        ConnectStep::Absent
    );
    assert_eq!(
        connect_step(PipeOutcome::NotFound, false, SECOND, 0),
        ConnectStep::Fail(ShutdownError::NotRunning)
    );
    assert_eq!(
        connect_step(PipeOutcome::Busy, false, SECOND, 0),
        ConnectStep::Retry(50_000_000)
    );
    assert_eq!(
        connect_step(PipeOutcome::Busy, false, SECOND, SECOND - 7),
        ConnectStep::Retry(7)
    );
    assert_eq!(
        connect_step(PipeOutcome::Busy, false, SECOND, SECOND),
        ConnectStep::Fail(ShutdownError::TimedOut)
    );
    assert_eq!(
        connect_step(PipeOutcome::Failed, false, SECOND, 0),
        ConnectStep::Fail(ShutdownError::Connect)
    );
}

#[test]
fn messages_are_framed_by_their_length() {
    let framed = frame_request(&vec![7; 258], 300).unwrap();
    assert_eq!(&framed[..5], &[2, 1, 0, 0, 7]);
    assert_eq!(framed.len(), 262);
    assert_eq!(
        frame_request(&vec![7; 301], 300),
        Err(ShutdownError::RequestTooLong)
    );
    assert_eq!(response_length(&[2, 1, 0, 0], 300), Ok(258));
    assert_eq!(
        response_length(&[0, 0, 0, 0], 300),
        Err(ShutdownError::ResponseLength(0, 300))
    );
    assert_eq!(
        response_length(&[255, 255, 255, 255], 300)
            .unwrap_err()
            .message(),
        "control response length 4294967295 is outside 1..=300"
    );
}

#[test]
fn responses_carry_the_request() {
    assert_eq!(
        request_id(12, 1_700_000_000_000_000_000),
        "shutdown-12-1700000000000000000"
    );
    assert_eq!(check_response_id("a", "a"), Ok(()));
    assert_eq!(
        check_response_id("a", "b"),
        Err(ShutdownError::ResponseId("a".to_owned(), "b".to_owned()))
    );
}

#[test]
fn shutdown_errors_name_the_pipe_and_the_requests() {
    assert_eq!(CONTROL_PIPE_PATH, r"\\.\pipe\autopiercam-control-v1");
    assert_eq!(
        ShutdownError::NotRunning.message(),
        r"the current user's AutoPierCam tray agent is not running (\\.\pipe\autopiercam-control-v1)"
    );
    assert_eq!(
        ShutdownError::Connect.message(),
        r"connecting to the current user's control pipe \\.\pipe\autopiercam-control-v1"
    );
    assert_eq!(
        check_response_id("shutdown-\"1\"", "shutdown-1-2")
            .unwrap_err()
            .message(),
        r#"tray agent returned response id "shutdown-\"1\""; expected "shutdown-1-2""#
    );
    assert_eq!(
        ShutdownError::ResponseTimedOut.message(),
        "timed out waiting for the tray agent's shutdown response"
    );
}

#[test]
fn the_process_is_waited_for() {
    assert_eq!(exit_wait_ms(1), 1);
    assert_eq!(exit_wait_ms(SECOND), 1_000);
    assert_eq!(exit_wait_ms(u128::MAX), u32::MAX - 1);
    assert_eq!(check_exit(ExitWait::Exited), Ok(()));
    assert_eq!(
        check_exit(ExitWait::TimedOut),
        Err(ShutdownError::ExitTimedOut)
    );
    assert_eq!(
        check_exit(ExitWait::Failed),
        Err(ShutdownError::ExitWaitFailed)
    );
}

#[test]
fn versions_have_three_numbers() {
    assert_eq!(
        parse_version("1.20.65535"),
        Some(Version {
            major: 1,
            minor: 20,
            patch: 65_535
        })
    );
    assert_eq!(
        parse_version("+1.02.3"),
        Some(Version {
            major: 1,
            minor: 2,
            patch: 3
        })
    );
    for invalid in ["1.2", "1.2.3.4", "1.2.x", "1.2.65536", "1..3", "-1.2.3", ""] {
        assert_eq!(parse_version(invalid), None, "{invalid}");
    }
}

fn program(graphical_shell: bool) -> ProgramIdentity {
    ProgramIdentity {
        assembly_name: "AutoPierCam.Capture".to_owned(),
        description: "AutoPierCam capture engine".to_owned(),
        original_filename: "autopiercam.exe".to_owned(),
        version_text: "1.2.3".to_owned(),
        version: Version {
            major: 1,
            minor: 2,
            patch: 3,
        },
        architecture: processor_architecture("x86_64").unwrap().to_owned(),
        graphical_shell,
    }
}

#[test]
fn manifests_describe_the_program() {
    let manifest = application_manifest(&program(false));
    assert!(manifest.starts_with("<?xml version=\"1.0\" encoding=\"UTF-8\" standalone=\"yes\"?>\n"));
    assert!(manifest.contains("name=\"AutoPierCam.Capture\""));
    assert!(manifest.contains("version=\"1.2.3.0\""));
    assert!(manifest.contains("processorArchitecture=\"amd64\" />"));
    assert!(manifest.contains("<description>AutoPierCam capture engine 1.2.3</description>"));
    assert!(manifest.contains("Id=\"{8e0f7a12-bfb3-4fe8-b9a5-48fd50a15a9a}\""));
    assert!(!manifest.contains("dpiAware"));
    assert!(manifest.ends_with("</application>\n</assembly>\n"));
    let graphical = application_manifest(&program(true));
    assert!(graphical.contains("dpiAwareness"));
    assert!(graphical.contains("Microsoft.Windows.Common-Controls"));
    assert_eq!(processor_architecture("aarch64"), Some("arm64"));
    assert_eq!(processor_architecture("x86"), Some("x86"));
    assert_eq!(processor_architecture("riscv64"), None);
}

#[test]
fn resources_refer_to_the_manifest() {
    let resource = version_resource(&program(false), "C:\\out\\a.manifest").unwrap();
    assert!(resource.starts_with("1 24 \"C:/out/a.manifest\"\n1 VERSIONINFO\n"));
    assert!(resource.contains("FILEVERSION 1,2,3,0\nPRODUCTVERSION 1,2,3,0\n"));
    assert!(resource.contains("VALUE \"FileVersion\", \"1.2.3.0\\0\"\n"));
    assert!(resource.contains("VALUE \"OriginalFilename\", \"autopiercam.exe\\0\"\n"));
    assert_eq!(version_resource(&program(false), "a\"b"), None);
    assert_eq!(rc_path("a\\b"), Some("a/b".to_owned()));
}
