//! Prerequisite checks before the first install step.

use lynx_engine::config::Prerequisite;
use lynx_engine::error::LynxError;
use lynx_engine::prerequisites::{check_prerequisites, version_is_at_least, PrerequisiteReport};
use lynx_engine::progress::ProgressEvent;

fn custom(label: &str, expected: i32) -> Prerequisite {
    Prerequisite::Custom {
        label: label.to_string(),
        check_command: "check".to_string(),
        args: vec![],
        expected_exit_code: expected,
        error_message: format!("{label} failed"),
        download_url: None,
    }
}

fn failure(r: Result<Vec<ProgressEvent>, LynxError>) -> String {
    match r {
        Err(LynxError::StepFailed { step, reason }) => {
            assert_eq!(step, "Prerequisites");
            reason
        }
        other => panic!("expected a failed prerequisite, got {other:?}"),
    }
}

#[test]
fn versions_compare_part_by_part() {
    assert!(version_is_at_least("10.0.19045", "10.0"));
    assert!(version_is_at_least("4.8", "4.8.0"));
    assert!(version_is_at_least("6.0.10", "6.0.9"));
    assert!(!version_is_at_least("6.0.9", "6.0.10"));
    assert!(!version_is_at_least("4.7.2", "4.8"));
    assert!(!version_is_at_least("4.x", "4.0"));
    assert!(!version_is_at_least("4..1", "4.0"));
    assert!(!version_is_at_least("", "0"));
}

#[test]
fn all_met_allows_the_install() {
    let ps = vec![
        Prerequisite::DotNet { minimum_version: "4.8".to_string(), download_url: None },
        Prerequisite::VcRedist { year: "2022".to_string(), arch: "x64".to_string(), download_url: None },
        Prerequisite::OsVersion { minimum: "10.0".to_string() },
        Prerequisite::DiskSpace { required_mb: 500 },
        custom("Tool", 0),
    ];
    let reports = vec![
        PrerequisiteReport::Version(Some("4.8.1".to_string())),
        PrerequisiteReport::Installed(true),
        PrerequisiteReport::Version(Some("10.0.22631".to_string())),
        PrerequisiteReport::FreeMb(500),
        PrerequisiteReport::ExitCode(Some(0)),
    ];
    assert!(check_prerequisites(&ps, &reports).unwrap().is_empty());
}

#[test]
fn the_first_unmet_prerequisite_stops_the_install() {
    let ps = vec![Prerequisite::DiskSpace { required_mb: 500 }, custom("Tool", 0)];
    let reports = vec![PrerequisiteReport::FreeMb(499), PrerequisiteReport::ExitCode(Some(1))];
    assert_eq!(failure(check_prerequisites(&ps, &reports)), "500 MB of free disk space is required");
    let reports = vec![PrerequisiteReport::FreeMb(9000), PrerequisiteReport::ExitCode(Some(1))];
    assert_eq!(failure(check_prerequisites(&ps, &reports)), "Tool failed");
    let reports = vec![PrerequisiteReport::FreeMb(9000), PrerequisiteReport::ExitCode(None)];
    assert_eq!(failure(check_prerequisites(&ps, &reports)), "Tool failed");
    let dotnet = vec![Prerequisite::DotNet { minimum_version: "6.0".to_string(), download_url: None }];
    assert_eq!(
        failure(check_prerequisites(&dotnet, &vec![PrerequisiteReport::Version(None)])),
        ".NET 6.0 or later is required"
    );
    let vc = vec![Prerequisite::VcRedist { year: "2022".to_string(), arch: "x64".to_string(), download_url: None }];
    assert_eq!(
        failure(check_prerequisites(&vc, &vec![PrerequisiteReport::Installed(false)])),
        "Visual C++ 2022 redistributable (x64) is required"
    );
    let os = vec![Prerequisite::OsVersion { minimum: "10.0".to_string() }];
    assert_eq!(
        failure(check_prerequisites(&os, &vec![PrerequisiteReport::Version(Some("6.1".to_string()))])),
        "OS version 10.0 or later is required"
    );
}

#[test]
fn unknown_reports_give_warnings() {
    let ps = vec![Prerequisite::DiskSpace { required_mb: 5 }, custom("Tool", 3)];
    let warnings = check_prerequisites(&ps, &vec![PrerequisiteReport::Unknown]).unwrap();
    let messages: Vec<String> = warnings
        .into_iter()
        .map(|w| match w {
            ProgressEvent::Warning { message } => message,
            other => panic!("expected a warning, got {other:?}"),
        })
        .collect();
    assert_eq!(
        messages,
        vec!["Could not check prerequisite: 5 MB of free disk space", "Could not check prerequisite: Tool"]
    );
    assert!(check_prerequisites(&vec![], &vec![]).unwrap().is_empty());
}
