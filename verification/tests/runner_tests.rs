//! Install plans: what each step does on each platform.

use lynx_engine::builder::new_project;
use lynx_engine::config::{InstallStep, LynxProject, ShortcutLocation, UninstallConfig};
use lynx_engine::error::LynxError;
use lynx_engine::host::{HostPaths, Platform};
use lynx_engine::progress::ProgressEvent;
use lynx_engine::runner::{
    powershell_args, process_failure, shortcut_script, InstallAction, InstallerRunner, PayloadSource,
    ProcessCheck, ProcessOutcome, RunnerConfig,
};

fn host() -> HostPaths {
    HostPaths {
        program_files: None,
        app_data: None,
        local_app_data: None,
        temp: None,
        home: Some("/home/ann".to_string()),
        desktop: Some("C:\\Users\\ann\\Desktop".to_string()),
        data: Some("C:\\Users\\ann\\AppData\\Roaming".to_string()),
    }
}

fn project_with(steps: Vec<InstallStep>) -> LynxProject {
    let mut p = new_project();
    p.app.name = "My App".to_string();
    p.app.version = "2.0".to_string();
    p.app.id = "com.acme.app".to_string();
    p.steps = steps;
    p
}

fn label_of(a: &InstallAction) -> String {
    match a {
        InstallAction::Emit(ProgressEvent::StepBegin { step_label, .. }) => format!("begin:{step_label}"),
        InstallAction::Emit(ProgressEvent::StepComplete { step_label, .. }) => format!("complete:{step_label}"),
        InstallAction::Emit(ProgressEvent::StepSkipped { reason, .. }) => format!("skipped:{reason}"),
        InstallAction::Emit(ProgressEvent::Warning { message }) => format!("warning:{message}"),
        InstallAction::Extract(PayloadSource::File) => "extract:file".to_string(),
        InstallAction::Extract(PayloadSource::Bytes) => "extract:bytes".to_string(),
        InstallAction::RunProcess { program, args, .. } => format!("run:{program} {}", args.join(" ")),
        InstallAction::CreateDirAll(p) => format!("mkdir:{}|{}", p.base, p.parts.join("|")),
        InstallAction::WriteFile { path, contents } => format!("write:{}|{}:{contents}", path.base, path.parts.join("|")),
        InstallAction::AppendToFile { path, text } => format!("append:{}|{}:{text}", path.base, path.parts.join("|")),
        InstallAction::CreateShellLink { link, target } => format!("link:{}|{}->{target}", link.base, link.parts.join("|")),
        InstallAction::Fail(LynxError::StepFailed { step, reason }) => format!("fail:{step}:{reason}"),
        InstallAction::Fail(e) => format!("fail:{e:?}"),
        InstallAction::Emit(e) => format!("emit:{e:?}"),
    }
}

fn plan(project: &LynxProject, config: RunnerConfig, index: usize, platform: Platform, host: &HostPaths) -> Vec<String> {
    let runner = InstallerRunner::new(project, config);
    let resolver = runner.resolver(platform, host);
    runner.plan_step(index, &resolver, platform, host).iter().map(label_of).collect()
}

#[test]
fn extract_step_uses_the_payload_it_has() {
    let p = project_with(vec![InstallStep::Extract { label: "Copying".to_string() }]);
    let h = host();
    assert_eq!(
        plan(&p, RunnerConfig::new("/opt/app").with_pak_bytes(vec![1, 2]), 0, Platform::Linux, &h),
        vec!["begin:Copying", "extract:bytes", "complete:Copying"]
    );
    assert_eq!(
        plan(&p, RunnerConfig::new("/opt/app").with_pak_path("x.lynxpak".into()), 0, Platform::Linux, &h),
        vec!["begin:Copying", "extract:file", "complete:Copying"]
    );
    assert_eq!(
        plan(&p, RunnerConfig::new("/opt/app"), 0, Platform::Linux, &h),
        vec!["begin:Copying", "skipped:No payload bundle found \u{2014} skipping extract step"]
    );
}

#[test]
fn windows_shortcuts() {
    let p = project_with(vec![InstallStep::Shortcut {
        label: "Links".to_string(),
        target: "{install_dir}\\app.exe".to_string(),
        locations: vec![ShortcutLocation::Desktop, ShortcutLocation::Taskbar, ShortcutLocation::StartMenu],
        name: None,
    }]);
    assert_eq!(
        plan(&p, RunnerConfig::new("C:\\Apps\\My App"), 0, Platform::Windows, &host()),
        vec![
            "begin:Links",
            "link:C:\\Users\\ann\\Desktop|My App.lnk->C:\\Apps\\My App\\app.exe",
            "warning:Taskbar pinning not yet supported, skipping",
            "link:C:\\Users\\ann\\AppData\\Roaming|Microsoft\\Windows\\Start Menu\\Programs|My App.lnk->C:\\Apps\\My App\\app.exe",
            "complete:Links",
        ]
    );
    let mut h = host();
    h.desktop = None;
    assert_eq!(
        plan(&p, RunnerConfig::new("C:\\A"), 0, Platform::Windows, &h),
        vec!["begin:Links", "fail:shortcut:Cannot find desktop directory"]
    );
}

#[test]
fn linux_shortcuts_write_desktop_entries() {
    let p = project_with(vec![InstallStep::Shortcut {
        label: "Links".to_string(),
        target: "{install_dir}/app".to_string(),
        locations: vec![ShortcutLocation::Desktop, ShortcutLocation::StartMenu],
        name: Some("Big Tool".to_string()),
    }]);
    let mut h = host();
    h.desktop = None;
    assert_eq!(
        plan(&p, RunnerConfig::new("/opt/t"), 0, Platform::Linux, &h),
        vec![
            "begin:Links",
            "mkdir:/home/ann|Desktop",
            "write:/home/ann|Desktop|big-tool.desktop:[Desktop Entry]\nType=Application\nName=Big Tool\nExec=/opt/t/app\nTerminal=false\n",
            "mkdir:/usr/share/applications|",
            "write:/usr/share/applications|big-tool.desktop:[Desktop Entry]\nType=Application\nName=Big Tool\nExec=/opt/t/app\nTerminal=false\n",
            "complete:Links",
        ]
    );
    assert_eq!(
        plan(&p, RunnerConfig::new("/opt/t"), 0, Platform::MacOs, &h),
        vec![
            "begin:Links",
            "warning:macOS shortcuts not yet implemented",
            "warning:macOS shortcuts not yet implemented",
            "complete:Links",
        ]
    );
}

#[test]
fn registry_step() {
    let p = project_with(vec![InstallStep::Registry {
        label: "Reg".to_string(),
        hive: "HKEY_LOCAL_MACHINE".to_string(),
        key: "SOFTWARE\\Acme".to_string(),
        value_name: "InstallPath".to_string(),
        value_data: "{install_dir}".to_string(),
        value_type: "REG_SZ".to_string(),
    }]);
    assert_eq!(
        plan(&p, RunnerConfig::new("C:\\A"), 0, Platform::Windows, &host()),
        vec![
            "begin:Reg",
            "run:reg add HKEY_LOCAL_MACHINE\\SOFTWARE\\Acme /v InstallPath /t REG_SZ /d C:\\A /f",
            "complete:Reg",
        ]
    );
    assert_eq!(
        plan(&p, RunnerConfig::new("/a"), 0, Platform::Linux, &host()),
        vec!["begin:Reg", "skipped:Registry steps are Windows-only"]
    );
}

#[test]
fn command_step_resolves_tokens() {
    let p = project_with(vec![InstallStep::Command {
        label: "Run".to_string(),
        command: "{install_dir}/setup".to_string(),
        args: vec!["--name".to_string(), "{app_name}".to_string(), "{app_version}".to_string()],
        wait: true,
        fail_on_error: true,
    }]);
    assert_eq!(
        plan(&p, RunnerConfig::new("/opt/a"), 0, Platform::Linux, &host()),
        vec!["begin:Run", "run:/opt/a/setup --name My-App 2.0", "complete:Run"]
    );
}

#[test]
fn env_var_step() {
    let p = project_with(vec![InstallStep::EnvVar {
        label: "Env".to_string(),
        name: "APP_HOME".to_string(),
        value: "{install_dir}".to_string(),
        scope: "system".to_string(),
    }]);
    assert_eq!(
        plan(&p, RunnerConfig::new("C:\\A"), 0, Platform::Windows, &host()),
        vec![
            "begin:Env",
            "run:reg add HKEY_LOCAL_MACHINE\\SYSTEM\\CurrentControlSet\\Control\\Session Manager\\Environment /v APP_HOME /t REG_EXPAND_SZ /d C:\\A /f",
            "complete:Env",
        ]
    );
    assert_eq!(
        plan(&p, RunnerConfig::new("/opt/a"), 0, Platform::Linux, &host()),
        vec!["begin:Env", "append:/home/ann|.profile:\nexport APP_HOME=\"/opt/a\"\n", "complete:Env"]
    );
}

#[test]
fn register_uninstaller_step() {
    let p = project_with(vec![InstallStep::RegisterUninstaller { label: "Reg".to_string() }]);
    let actions = plan(&p, RunnerConfig::new("C:\\A"), 0, Platform::Windows, &host());
    assert_eq!(actions.len(), 9);
    assert_eq!(
        actions[1],
        "run:reg add HKEY_LOCAL_MACHINE\\SOFTWARE\\Microsoft\\Windows\\CurrentVersion\\Uninstall\\com.acme.app /v DisplayName /t REG_SZ /d My App /f"
    );
    assert_eq!(
        actions[5],
        "run:reg add HKEY_LOCAL_MACHINE\\SOFTWARE\\Microsoft\\Windows\\CurrentVersion\\Uninstall\\com.acme.app /v UninstallString /t REG_SZ /d C:\\A\\uninstall.exe /f"
    );
    assert_eq!(actions[8], "complete:Reg");
    let mut named = p.clone();
    named.uninstall = Some(UninstallConfig {
        enabled: true,
        exe_name: "remove-my-app.exe".to_string(),
        extra_remove_paths: vec![],
        remove_install_dir: true,
    });
    let actions = plan(&named, RunnerConfig::new("C:\\A"), 0, Platform::Windows, &host());
    assert_eq!(
        actions[5],
        "run:reg add HKEY_LOCAL_MACHINE\\SOFTWARE\\Microsoft\\Windows\\CurrentVersion\\Uninstall\\com.acme.app /v UninstallString /t REG_SZ /d C:\\A\\remove-my-app.exe /f"
    );
    named.uninstall = None;
    let actions = plan(&named, RunnerConfig::new("C:\\A"), 0, Platform::Windows, &host());
    assert_eq!(
        actions[5],
        "run:reg add HKEY_LOCAL_MACHINE\\SOFTWARE\\Microsoft\\Windows\\CurrentVersion\\Uninstall\\com.acme.app /v UninstallString /t REG_SZ /d C:\\A\\uninstall.exe /f"
    );
    assert_eq!(
        plan(&p, RunnerConfig::new("/a"), 0, Platform::MacOs, &host()),
        vec!["begin:Reg", "skipped:Uninstaller registration is Windows-only"]
    );
}

#[test]
fn started_and_complete_events() {
    let p = project_with(vec![InstallStep::Extract { label: "x".to_string() }]);
    let runner = InstallerRunner::new(&p, RunnerConfig::new("/opt/a"));
    match runner.started_event() {
        ProgressEvent::Started { app_name, app_version, total_steps } => {
            assert_eq!((app_name.as_str(), app_version.as_str(), total_steps), ("My App", "2.0", 1));
        }
        _ => panic!("expected Started"),
    }
    match runner.complete_event(1500) {
        ProgressEvent::Complete { install_dir, duration_ms } => {
            assert_eq!((install_dir.as_str(), duration_ms), ("/opt/a", 1500));
        }
        _ => panic!("expected Complete"),
    }
}

#[test]
fn judging_process_outcomes() {
    let cmd = ProcessCheck::Command { label: "Run".to_string(), command: "setup".to_string(), fail_on_error: true };
    let lenient = ProcessCheck::Command { label: "Run".to_string(), command: "setup".to_string(), fail_on_error: false };
    let failed = ProcessOutcome::Exited { success: false, status: "exit status: 2".to_string() };
    let ok = ProcessOutcome::Exited { success: true, status: "exit status: 0".to_string() };
    match process_failure(&cmd, &failed) {
        Some(LynxError::StepFailed { step, reason }) => {
            assert_eq!(step, "Run");
            assert_eq!(reason, "Command exited with: exit status: 2");
        }
        other => panic!("unexpected {other:?}"),
    }
    assert!(process_failure(&lenient, &failed).is_none());
    assert!(process_failure(&cmd, &ok).is_none());
    match process_failure(&cmd, &ProcessOutcome::SpawnFailed("not found".to_string())) {
        Some(LynxError::StepFailed { reason, .. }) => assert_eq!(reason, "Failed to spawn 'setup': not found"),
        other => panic!("unexpected {other:?}"),
    }
    match process_failure(&ProcessCheck::Registry, &failed) {
        Some(LynxError::StepFailed { step, reason }) => {
            assert_eq!(step, "registry");
            assert_eq!(reason, "reg.exe exited with: exit status: 2");
        }
        other => panic!("unexpected {other:?}"),
    }
    match process_failure(&ProcessCheck::EnvVar, &failed) {
        Some(LynxError::StepFailed { reason, .. }) => assert_eq!(reason, "reg.exe failed to set environment variable"),
        other => panic!("unexpected {other:?}"),
    }
    assert!(process_failure(&ProcessCheck::Ignored, &failed).is_none());
    assert!(process_failure(&cmd, &ProcessOutcome::Detached).is_none());
}

#[test]
fn shortcut_script_quotes_paths() {
    let script = shortcut_script("C:\\Users\\o'neil\\Desktop\\App.lnk", "C:\\A\\app.exe");
    assert_eq!(
        script,
        "$ws = New-Object -ComObject WScript.Shell; $s = $ws.CreateShortcut('C:\\Users\\o''neil\\Desktop\\App.lnk'); $s.TargetPath = 'C:\\A\\app.exe'; $s.Save()"
    );
    assert_eq!(powershell_args("x"), vec!["-NoProfile", "-NonInteractive", "-Command", "x"]);
}

#[test]
fn app_version_token_resolves_to_the_version() {
    let p = project_with(vec![]);
    for platform in [Platform::Windows, Platform::MacOs, Platform::Linux, Platform::Other] {
        let runner = InstallerRunner::new(&p, RunnerConfig::new("/opt/t"));
        let r = runner.resolver(platform, &host());
        assert_eq!(r.resolve("{app_version}"), "2.0");
        assert_eq!(r.resolve("{install_dir}/v{app_version}"), "/opt/t/v2.0");
    }
}
