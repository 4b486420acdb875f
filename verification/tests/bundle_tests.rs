//! Bundling rules: file filters, archive paths and the bundle plan.

use lynx_engine::bundle::{
    archive_path, checked_total_size, glob_match, include_file, plan_bundle, walk_destination,
    CollectedFile, ENGINE_VERSION,
};
use lynx_engine::builder::new_project;
use lynx_engine::config::FileEntry;
use lynx_engine::extract::{Extractor, TokenResolver};
use lynx_engine::payload::{compress_payload, decompress_payload};
use lynx_engine::progress::ProgressEvent;
use lynx_engine::error::LynxError;

#[test]
fn test_glob_match_wildcard() {
    assert!(glob_match("*", "anything.exe"));
    assert!(glob_match("*.dll", "mylib.dll"));
    assert!(!glob_match("*.dll", "mylib.exe"));
    assert!(glob_match("*.exe", "app.exe"));
}

#[test]
fn test_glob_match_exact() {
    assert!(glob_match("myapp.exe", "myapp.exe"));
    assert!(!glob_match("myapp.exe", "otherapp.exe"));
}

#[test]
fn glob_extension_needs_the_dot() {
    assert!(!glob_match("*.dll", "dll"));
    assert!(!glob_match("*.dll", "mylibdll"));
    assert!(glob_match("*.tar.gz", "a.tar.gz"));
    assert!(!glob_match("*x", "ax"));
    assert!(glob_match("*x", "*x"));
}

#[test]
fn filter_selects_walked_files() {
    let mut entry = FileEntry {
        source: "dist/".to_string(),
        destination: "{install_dir}".to_string(),
        recursive: true,
        filter: None,
        overwrite: true,
    };
    assert!(include_file(&entry, "readme.txt"));
    entry.filter = Some("*.dll".to_string());
    assert!(include_file(&entry, "core.dll"));
    assert!(!include_file(&entry, "readme.txt"));
}

#[test]
fn paths_use_forward_slashes() {
    assert_eq!(archive_path("dist\\bin\\app.exe"), "dist/bin/app.exe");
    assert_eq!(walk_destination("{install_dir}", "bin\\app.exe"), "{install_dir}/bin/app.exe");
    assert_eq!(walk_destination("{install_dir}/lib", "a.dll"), "{install_dir}/lib/a.dll");
}

fn collected(name: &str, size: u64) -> CollectedFile {
    CollectedFile {
        archive_path: format!("dist/{name}"),
        destination: format!("{{install_dir}}/{name}"),
        size,
        file_name: name.to_string(),
    }
}

#[test]
fn bundle_plan_reports_running_totals() {
    let project = new_project();
    let files = vec![collected("a.exe", 2048), collected("b.dll", 1024), collected("c.txt", 10)];
    assert_eq!(checked_total_size(&files), Some(3082));
    let plan = plan_bundle(&project, &files, ENGINE_VERSION);
    match &plan.begin {
        ProgressEvent::StepBegin { step_index, step_label } => {
            assert_eq!(*step_index, 0);
            assert_eq!(step_label, "Bundling 3 files (3 KB)...");
        }
        _ => panic!("expected StepBegin"),
    }
    let written: Vec<u64> = plan
        .file_events
        .iter()
        .map(|e| match e {
            ProgressEvent::FileProgress { bytes_written, bytes_total, .. } => {
                assert_eq!(*bytes_total, 3082);
                *bytes_written
            }
            _ => panic!("expected FileProgress"),
        })
        .collect();
    assert_eq!(written, vec![2048, 3072, 3082]);
    assert_eq!(plan.file_events[2].progress_ratio(), Some((3082, 3082)));
    match &plan.complete {
        ProgressEvent::StepComplete { step_label, .. } => assert_eq!(step_label, "Bundle complete"),
        _ => panic!("expected StepComplete"),
    }
    assert_eq!(plan.manifest.file_count, 3);
    assert_eq!(plan.manifest.total_bytes, 3082);
    assert_eq!(plan.manifest.app_name, "My App");
    assert_eq!(plan.manifest.lynx_version, "0.1.0");
    assert_eq!(plan.manifest.entries[1].archive_path, "dist/b.dll");
    assert_eq!(plan.manifest.entries[1].destination, "{install_dir}/b.dll");
    assert_eq!(plan.manifest.entries[1].size, 1024);
}

#[test]
fn bundle_plan_of_nothing() {
    let project = new_project();
    let plan = plan_bundle(&project, &Vec::new(), ENGINE_VERSION);
    match &plan.begin {
        ProgressEvent::StepBegin { step_label, .. } => assert_eq!(step_label, "Bundling 0 files (0 KB)..."),
        _ => panic!("expected StepBegin"),
    }
    assert!(plan.file_events.is_empty());
    assert_eq!(plan.manifest.total_bytes, 0);
}

#[test]
fn total_size_overflow_is_detected() {
    let files = vec![collected("a", u64::MAX), collected("b", 1)];
    assert_eq!(checked_total_size(&files), None);
}

#[test]
fn payload_roundtrip() {
    let data: Vec<u8> = (0..5000u32).map(|i| (i % 251) as u8).collect();
    let packed = compress_payload(&data).expect("compresses");
    assert_ne!(packed, data);
    let unpacked = decompress_payload(&packed).expect("decompresses");
    assert_eq!(unpacked, data);
}

#[test]
fn corrupt_payload_is_an_extract_error() {
    match decompress_payload(b"definitely not zstd") {
        Err(LynxError::Extract(msg)) => assert!(msg.starts_with("Cannot init zstd decoder: ")),
        other => panic!("expected an extract error, got {other:?}"),
    }
}

#[test]
fn bundled_files_land_at_their_resolved_destinations() {
    let files = vec![collected("app.exe", 10), collected("lib.dll", 20)];
    let plan = plan_bundle(&new_project(), &files, ENGINE_VERSION);
    let mut r = TokenResolver::new();
    r.set("install_dir", "C:/Apps/Tool");
    let ex = Extractor::new(r.clone(), 0);
    for (i, f) in files.iter().enumerate() {
        assert_eq!(ex.entry_destination(&plan.manifest, i, &f.archive_path).unwrap(), r.resolve(&f.destination));
    }
    assert_eq!(ex.entry_destination(&plan.manifest, 1, "dist/lib.dll").unwrap(), "C:/Apps/Tool/lib.dll");
    assert!(ex.finish(&plan.manifest, files.len()).is_ok());
}
