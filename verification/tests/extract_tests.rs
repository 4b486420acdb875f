//! Token resolution and the extraction step's reports.

use lynx_engine::bundle::{BundleEntry, BundleManifest};
use lynx_engine::error::LynxError;
use lynx_engine::extract::{Extractor, TokenResolver};
use lynx_engine::host::{HostPaths, Platform};
use lynx_engine::progress::ProgressEvent;

#[test]
fn test_token_resolution() {
    let mut resolver = TokenResolver::new();
    resolver.set("install_dir", "C:\\Program Files\\MyApp");
    resolver.set("app_name", "MyApp");

    let resolved = resolver.resolve("{install_dir}\\{app_name}.exe");
    assert_eq!(resolved, "C:\\Program Files\\MyApp\\MyApp.exe");
}

#[test]
fn test_token_resolution_unknown_token() {
    let resolver = TokenResolver::new();
    // Unknown tokens are left as-is
    let resolved = resolver.resolve("{unknown_token}/file.txt");
    assert_eq!(resolved, "{unknown_token}/file.txt");
}

#[test]
fn test_token_resolution_multiple() {
    let mut resolver = TokenResolver::new();
    resolver.set("install_dir", "/opt/myapp");
    resolver.set("app_name", "myapp");

    let resolved = resolver.resolve("{install_dir}/bin/{app_name}");
    assert_eq!(resolved, "/opt/myapp/bin/myapp");
}

#[test]
fn set_replaces_a_token_value() {
    let mut resolver = TokenResolver::new();
    resolver.set("install_dir", "/first");
    resolver.set("install_dir", "/second");
    assert_eq!(resolver.resolve("{install_dir}/x"), "/second/x");
}

#[test]
fn text_without_braces_is_unchanged() {
    let mut resolver = TokenResolver::new();
    resolver.set("a", "b");
    assert_eq!(resolver.resolve("plain/path.txt"), "plain/path.txt");
    assert_eq!(resolver.resolve(""), "");
}

#[test]
fn repeated_and_adjacent_tokens() {
    let mut resolver = TokenResolver::new();
    resolver.set("x", "1");
    assert_eq!(resolver.resolve("{x}{x}-{x}"), "11-1");
    assert_eq!(resolver.resolve("{{x}}"), "{1}");
}

fn no_host() -> HostPaths {
    HostPaths {
        program_files: None,
        app_data: None,
        local_app_data: None,
        temp: None,
        home: None,
        desktop: None,
        data: None,
    }
}

#[test]
fn windows_defaults_fall_back() {
    let r = TokenResolver::with_defaults("My App", "C:\\Apps\\My App", Platform::Windows, &no_host());
    assert_eq!(r.resolve("{program_files}"), "C:\\Program Files");
    assert_eq!(r.resolve("{app_data}"), "C:\\Users\\Default\\AppData\\Roaming");
    assert_eq!(r.resolve("{local_app_data}"), "C:\\Users\\Default\\AppData\\Local");
    assert_eq!(r.resolve("{temp}"), "C:\\Windows\\Temp");
    assert_eq!(r.resolve("{install_dir}"), "C:\\Apps\\My App");
    assert_eq!(r.resolve("{app_name}"), "My-App");
}

#[test]
fn windows_defaults_from_environment() {
    let mut host = no_host();
    host.program_files = Some("D:\\PF".to_string());
    host.temp = Some("D:\\T".to_string());
    let r = TokenResolver::with_defaults("Tool", "x", Platform::Windows, &host);
    assert_eq!(r.resolve("{program_files}/{app_name}"), "D:\\PF/Tool");
    assert_eq!(r.resolve("{temp}"), "D:\\T");
}

#[test]
fn linux_and_macos_defaults() {
    let mut host = no_host();
    host.home = Some("/home/ann".to_string());
    let r = TokenResolver::with_defaults("Tool", "/opt/tool", Platform::Linux, &host);
    assert_eq!(r.resolve("{home}|{app_data}|{temp}"), "/home/ann|/home/ann/.config/Tool|/tmp");
    let r = TokenResolver::with_defaults("Tool", "/Applications/Tool", Platform::MacOs, &no_host());
    assert_eq!(
        r.resolve("{home}|{app_data}|{applications}"),
        "/Users/user|/Users/user/Library/Application Support/Tool|/Applications"
    );
    let r = TokenResolver::with_defaults("Tool", "/x", Platform::Other, &no_host());
    assert_eq!(r.resolve("{temp}/{install_dir}"), "{temp}//x");
}

#[test]
fn extractor_reports() {
    let mut resolver = TokenResolver::new();
    resolver.set("install_dir", "/opt/app");
    let ex = Extractor::new(resolver.clone(), 4);
    match ex.begin_event() {
        ProgressEvent::StepBegin { step_index, step_label } => {
            assert_eq!(step_index, 4);
            assert_eq!(step_label, "Extracting files...");
        }
        _ => panic!("expected StepBegin"),
    }
    match ex.file_event("app") {
        ProgressEvent::FileProgress { step_index, file_name, bytes_written, bytes_total } => {
            assert_eq!((step_index, file_name.as_str(), bytes_written, bytes_total), (4, "app", 0, 0));
        }
        _ => panic!("expected FileProgress"),
    }
    match ex.complete_event(12) {
        ProgressEvent::StepComplete { step_label, .. } => assert_eq!(step_label, "Extracted 12 files"),
        _ => panic!("expected StepComplete"),
    }
}

fn manifest_of(entries: &[(&str, &str)]) -> BundleManifest {
    BundleManifest {
        lynx_version: "0.1.0".to_string(),
        app_name: "App".to_string(),
        app_version: "1".to_string(),
        file_count: entries.len(),
        total_bytes: 0,
        entries: entries
            .iter()
            .map(|(a, d)| BundleEntry { archive_path: a.to_string(), destination: d.to_string(), size: 0 })
            .collect(),
    }
}

#[test]
fn files_land_at_their_resolved_destination() {
    let mut resolver = TokenResolver::new();
    resolver.set("install_dir", "/opt/app");
    let ex = Extractor::new(resolver, 1);
    let m = manifest_of(&[
        ("dist/app.exe", "{install_dir}/app.exe"),
        ("dist/lib/a.dll", "{install_dir}/lib/a.dll"),
    ]);
    assert_eq!(ex.entry_destination(&m, 0, "dist/app.exe").unwrap(), "/opt/app/app.exe");
    assert_eq!(ex.entry_destination(&m, 1, "dist/lib/a.dll").unwrap(), "/opt/app/lib/a.dll");
    match ex.entry_destination(&m, 1, "dist/app.exe") {
        Err(LynxError::Extract(msg)) => assert_eq!(msg, "Unexpected bundle entry: dist/app.exe"),
        other => panic!("expected an extract error, got {other:?}"),
    }
    match ex.entry_destination(&m, 2, "extra.txt") {
        Err(LynxError::Extract(msg)) => assert_eq!(msg, "Unexpected bundle entry: extra.txt"),
        other => panic!("expected an extract error, got {other:?}"),
    }
    match ex.finish(&m, 2) {
        Ok(ProgressEvent::StepComplete { step_index, step_label }) => {
            assert_eq!((step_index, step_label.as_str()), (1, "Extracted 2 files"))
        }
        other => panic!("expected StepComplete, got {other:?}"),
    }
    match ex.finish(&m, 1) {
        Err(LynxError::Extract(msg)) => assert_eq!(msg, "Bundle is missing files listed in its manifest"),
        other => panic!("expected an extract error, got {other:?}"),
    }
}

#[test]
fn resolving_does_not_depend_on_the_order_tokens_were_set() {
    let mut a = TokenResolver::new();
    a.set("install_dir", "/opt/x");
    a.set("temp", "/tmp");
    a.set("install_dir", "/opt/app");
    let mut b = TokenResolver::new();
    b.set("temp", "/tmp");
    b.set("install_dir", "/opt/app");
    let input = "{install_dir}/{temp}{temp}/{unknown}/{{install_dir}}";
    assert_eq!(a.resolve(input), b.resolve(input));
    assert_eq!(a.resolve(input), "/opt/app//tmp/tmp/{unknown}/{/opt/app}");
}
