//! Project rules beyond parsing: schema errors, the builder's checks and
//! defaults, and the shell's embedded project.

use lynx_engine::builder::{new_project, validate_project, AppDraft, ProjectDraft};
use lynx_engine::config::{
    default_accent, default_env_scope, default_install_dir, default_reg_type, default_true,
    default_uninstaller_name, InstallStep, LynxProject, Prerequisite,
};
use lynx_engine::error::LynxError;
use lynx_engine::shell::{embedded_project_toml, install_summary};

fn parse_err(text: &str) -> String {
    match LynxProject::from_toml_str(text) {
        Err(LynxError::TomlDe(e)) => e.message().to_string(),
        other => panic!("expected a schema error, got {other:?}"),
    }
}

const MINIMAL: &str = "[app]\nname = \"A\"\nversion = \"1\"\npublisher = \"P\"\nid = \"x\"\n\n[theme]\nname = \"t\"\npath = \"p\"\n";

#[test]
fn defaults_are_fixed() {
    assert_eq!(default_install_dir(), "{program_files}/{app_name}");
    assert_eq!(default_accent(), "#FF6B35");
    assert!(default_true());
    assert_eq!(default_reg_type(), "REG_SZ");
    assert_eq!(default_env_scope(), "user");
    assert_eq!(default_uninstaller_name(), "uninstall.exe");
}

#[test]
fn schema_errors_name_the_field() {
    assert_eq!(parse_err("[theme]\nname = \"t\"\npath = \"p\"\n"), "missing field `app`");
    assert_eq!(parse_err("[app]\nname = \"A\"\n[theme]\nname = \"t\"\npath = \"p\"\n"), "missing field `version`");
    assert_eq!(parse_err(&MINIMAL.replace("name = \"A\"", "name = 3")), "invalid type for `name`");
    assert_eq!(
        parse_err(&format!("{MINIMAL}\n[[steps]]\nkind = \"teleport\"\nlabel = \"x\"\n")),
        "unknown variant in `kind`"
    );
    assert_eq!(
        parse_err(&format!("{MINIMAL}\n[[prerequisites]]\nkind = \"disk_space\"\nrequired_mb = -5\n")),
        "invalid value for `required_mb`"
    );
    assert_eq!(
        parse_err(&format!("{MINIMAL}\n[[steps]]\nkind = \"shortcut\"\nlabel = \"x\"\ntarget = \"t\"\nlocations = [\"roof\"]\n")),
        "unknown variant in `locations`"
    );
}

#[test]
fn toml_syntax_errors_are_toml_errors() {
    match LynxProject::from_toml_str("[app\nname = ") {
        Err(LynxError::TomlDe(_)) => {}
        other => panic!("expected a TOML error, got {other:?}"),
    }
}

#[test]
fn step_defaults_and_unknown_keys() {
    let text = format!(
        "{MINIMAL}\nunknown = 1\n[[steps]]\nkind = \"command\"\nlabel = \"c\"\ncommand = \"run\"\n\n[[steps]]\nkind = \"env_var\"\nlabel = \"e\"\nname = \"N\"\nvalue = \"V\"\n\n[[prerequisites]]\nkind = \"custom\"\nlabel = \"l\"\ncheck_command = \"c\"\nargs = []\nerror_message = \"m\"\n"
    );
    let p = LynxProject::from_toml_str(&text).expect("parses");
    match &p.steps[0] {
        InstallStep::Command { args, wait, fail_on_error, .. } => {
            assert!(args.is_empty());
            assert!(*wait && *fail_on_error);
        }
        _ => panic!("expected Command"),
    }
    match &p.steps[1] {
        InstallStep::EnvVar { scope, .. } => assert_eq!(scope, "user"),
        _ => panic!("expected EnvVar"),
    }
    match &p.prerequisites[0] {
        Prerequisite::Custom { expected_exit_code, download_url, .. } => {
            assert_eq!(*expected_exit_code, 0);
            assert!(download_url.is_none());
        }
        _ => panic!("expected Custom"),
    }
}

#[test]
fn written_project_reads_back_whole() {
    let mut p = new_project();
    p.theme.custom_vars.push(("hero".to_string(), "Hi".to_string()));
    p.prerequisites.push(Prerequisite::DiskSpace { required_mb: 250 });
    let text = p.to_toml_str().expect("writes");
    let q = LynxProject::from_toml_str(&text).expect("reads");
    assert_eq!(format!("{q:?}"), format!("{p:?}"));
}

#[test]
fn huge_disk_space_cannot_be_written() {
    let mut p = new_project();
    p.prerequisites.push(Prerequisite::DiskSpace { required_mb: u64::MAX });
    match p.to_toml_str() {
        Err(LynxError::TomlSer(m)) => assert_eq!(m, "invalid value for `required_mb`"),
        other => panic!("unexpected {other:?}"),
    }
}

fn draft(app: Option<AppDraft>, files: Option<usize>, kinds: Option<Vec<Option<&str>>>) -> ProjectDraft {
    ProjectDraft {
        app,
        file_count: files,
        step_kinds: kinds.map(|ks| ks.into_iter().map(|k| k.map(|s| s.to_string())).collect()),
    }
}

fn app(name: &str, version: &str, publisher: &str, id: &str) -> Option<AppDraft> {
    let f = |s: &str| if s.is_empty() { None } else { Some(s.to_string()) };
    Some(AppDraft { name: f(name), version: f(version), publisher: f(publisher), id: f(id) })
}

#[test]
fn validation_of_a_good_project() {
    let r = validate_project(&draft(app("A", "1", "P", "x"), Some(1), Some(vec![Some("extract")])));
    assert!(r.valid);
    assert!(r.errors.is_empty());
    assert!(r.warnings.is_empty());
}

#[test]
fn validation_messages() {
    let r = validate_project(&draft(app("", "", "", ""), Some(0), Some(vec![])));
    assert!(!r.valid);
    assert_eq!(
        r.errors,
        vec![
            "App name is required",
            "App version is required",
            "App ID is required (e.g. com.example.myapp)",
            "No install steps defined",
        ]
    );
    assert_eq!(
        r.warnings,
        vec![
            "Publisher name is recommended",
            "No files added to bundle \u{2014} the installer won't install anything",
            "No extract step \u{2014} files won't be extracted during install",
        ]
    );
    let r = validate_project(&draft(None, None, Some(vec![None, Some("shortcut")])));
    assert_eq!(r.errors, vec!["Missing app configuration"]);
    assert_eq!(r.warnings, vec!["No extract step \u{2014} files won't be extracted during install"]);
    let r = validate_project(&draft(Some(AppDraft { name: Some(String::new()), version: Some("1".into()), publisher: Some("p".into()), id: Some("i".into()) }), None, None));
    assert_eq!(r.errors, vec!["App name is required"]);
    assert!(r.warnings.is_empty());
}

#[test]
fn new_project_defaults() {
    let p = new_project();
    assert_eq!(p.app.name, "My App");
    assert_eq!(p.app.description, Some(String::new()));
    assert_eq!(p.theme.background_color, Some("#1A1A2E".to_string()));
    assert_eq!(p.steps.len(), 3);
    match &p.steps[1] {
        InstallStep::Shortcut { target, name, .. } => {
            assert_eq!(target, "{install_dir}/{app_name}.exe");
            assert!(name.is_none());
        }
        _ => panic!("expected Shortcut"),
    }
    let u = p.uninstall.as_ref().expect("uninstall section");
    assert!(u.enabled && u.remove_install_dir);
    let r = validate_project(&draft(app("My App", "1.0.0", "", "com.example.myapp"), Some(0), Some(vec![Some("extract"), Some("shortcut"), Some("register_uninstaller")])));
    assert!(r.valid);
}

#[test]
fn embedded_project_parses() {
    let text = embedded_project_toml();
    assert!(text.starts_with("[app]\nname = \"My Awesome App\"\n"));
    assert!(text.ends_with("label = \"Installing application files...\""));
    let p = LynxProject::from_toml_str(&text).expect("embedded project parses");
    let s = install_summary(&p);
    assert_eq!(s.app_name, "My Awesome App");
    assert_eq!(s.app_version, "2.1.0");
    assert_eq!(s.default_install_dir, "{local_app_data}/MyAwesomeApp");
    assert_eq!(s.accent_color, "#FF6B35");
    assert_eq!(s.total_steps, 1);
    assert!(s.app_icon.is_none());
}

#[test]
fn written_project_keeps_field_order() {
    let p = LynxProject::from_toml_str(MINIMAL).expect("reads");
    let text = p.to_toml_str().expect("writes");
    let at = |k: &str| text.find(k).unwrap_or_else(|| panic!("{k} missing in {text}"));
    assert!(at("[app]") < at("[theme]"));
    assert!(at("name = \"A\"") < at("version = \"1\""));
    assert!(at("version = \"1\"") < at("publisher = \"P\""));
    assert!(at("publisher = \"P\"") < at("id = \"x\""));
}
