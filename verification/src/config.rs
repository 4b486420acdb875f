//! The schema of a `.lynx` project file: app metadata, theme, files to
//! bundle, install steps, prerequisites and uninstaller settings.
//!
//! A `.lynx` file is a TOML document. The `toml` crate turns its text into a
//! tree; this module decodes the tree into a `LynxProject` and encodes a
//! project back into a tree, both against the schema below.
use vstd::prelude::*;
use vstd::string::*;
use crate::error::{ErrorView, LynxError, LynxResult};
use crate::schema::{
    SchemaError, decode_document, decode_project_exec, encodable, encode_project, encode_project_exec,
    lemma_decode_reads_document, lemma_decoded_vars_distinct, lemma_encode_writes_document, project_in, table_of,
    var_names_distinct,
};
use crate::text::{concat3, str_equal};
use crate::toml_tree::{
    TomlView, custom_toml_error, keys_unique, parse_document, render_document, toml_custom_error, toml_document,
    toml_rendered,
};

verus! {

// ─────────────────────────────────────────────
//  Top-level project
// ─────────────────────────────────────────────

#[derive(Debug, Clone)]
pub struct LynxProject {
    /// Core app metadata
    pub app: AppMeta,
    /// UI theme configuration
    pub theme: Theme,
    /// Files to bundle into the installer
    pub files: Vec<FileEntry>,
    /// Ordered list of install steps to execute
    pub steps: Vec<InstallStep>,
    /// Optional prerequisite checks before install begins
    pub prerequisites: Vec<Prerequisite>,
    /// Optional uninstaller config
    pub uninstall: Option<UninstallConfig>,
}

#[derive(Debug, Clone)]
pub struct AppMeta {
    /// Display name of the application
    pub name: String,
    /// Semantic version string e.g. "1.2.3"
    pub version: String,
    /// Publisher / company name
    pub publisher: String,
    /// Reverse-domain unique identifier e.g. "com.acme.myapp"
    pub id: String,
    /// Path to the app icon (relative to project root)
    pub icon: Option<String>,
    /// Default install directory, with tokens
    pub default_install_dir: String,
    /// URL to the app's website
    pub url: Option<String>,
    /// Short description shown in the installer
    pub description: Option<String>,
}

#[derive(Debug, Clone)]
pub struct Theme {
    /// Theme name (must match a folder in themes/)
    pub name: String,
    /// Path to the theme folder (relative to project root)
    pub path: String,
    /// Primary accent color as hex string e.g. "#FF6B35"
    pub accent_color: String,
    /// Optional background color override
    pub background_color: Option<String>,
    /// Custom CSS variables to inject into the theme, as name and value in
    /// document order; a project read from a file names each variable once
    pub custom_vars: Vec<(String, String)>,
}

#[derive(Debug, Clone)]
pub struct FileEntry {
    /// Source path (relative to project root, or absolute)
    pub source: String,
    /// Destination path on the target machine, with tokens
    pub destination: String,
    /// Whether to include subdirectories recursively
    pub recursive: bool,
    /// Optional glob pattern to filter files e.g. "*.dll"
    pub filter: Option<String>,
    /// Whether to overwrite existing files
    pub overwrite: bool,
}

#[derive(Debug, Clone)]
pub enum InstallStep {
    /// Extract bundled payload files to disk
    Extract { label: String },
    /// Create a shortcut to an executable
    Shortcut { label: String, target: String, locations: Vec<ShortcutLocation>, name: Option<String> },
    /// Write a value to the Windows registry
    Registry {
        label: String,
        hive: String,
        key: String,
        value_name: String,
        value_data: String,
        value_type: String,
    },
    /// Run an external command or script
    Command { label: String, command: String, args: Vec<String>, wait: bool, fail_on_error: bool },
    /// Set an environment variable
    EnvVar { label: String, name: String, value: String, scope: String },
    /// Register the app in Add/Remove Programs (Windows)
    RegisterUninstaller { label: String },
}

#[derive(Debug, Clone, Copy, PartialEq, Eq, Structural)]
pub enum ShortcutLocation {
    Desktop,
    StartMenu,
    Taskbar,
}

#[derive(Debug, Clone)]
pub enum Prerequisite {
    /// Check for a minimum .NET version
    DotNet { minimum_version: String, download_url: Option<String> },
    /// Check for Visual C++ redistributable
    VcRedist { year: String, arch: String, download_url: Option<String> },
    /// Check for a minimum OS version
    OsVersion { minimum: String },
    /// Check for available disk space (in MB)
    DiskSpace { required_mb: u64 },
    /// Custom command-based check
    Custom {
        label: String,
        check_command: String,
        args: Vec<String>,
        expected_exit_code: i32,
        error_message: String,
        download_url: Option<String>,
    },
}

#[derive(Debug, Clone)]
pub struct UninstallConfig {
    /// Whether to generate an uninstaller automatically
    pub enabled: bool,
    /// Name of the uninstaller executable
    pub exe_name: String,
    /// Additional files/dirs to remove on uninstall
    pub extra_remove_paths: Vec<String>,
    /// Whether to remove the install directory itself
    pub remove_install_dir: bool,
}

// ─────────────────────────────────────────────
//  Views
// ─────────────────────────────────────────────

pub struct AppMetaView {
    pub name: Seq<char>,
    pub version: Seq<char>,
    pub publisher: Seq<char>,
    pub id: Seq<char>,
    pub icon: Option<Seq<char>>,
    pub default_install_dir: Seq<char>,
    pub url: Option<Seq<char>>,
    pub description: Option<Seq<char>>,
}

pub struct ThemeView {
    pub name: Seq<char>,
    pub path: Seq<char>,
    pub accent_color: Seq<char>,
    pub background_color: Option<Seq<char>>,
    pub custom_vars: Seq<(Seq<char>, Seq<char>)>,
}

pub struct FileEntryView {
    pub source: Seq<char>,
    pub destination: Seq<char>,
    pub recursive: bool,
    pub filter: Option<Seq<char>>,
    pub overwrite: bool,
}

pub enum InstallStepView {
    Extract { label: Seq<char> },
    Shortcut { label: Seq<char>, target: Seq<char>, locations: Seq<ShortcutLocation>, name: Option<Seq<char>> },
    Registry {
        label: Seq<char>,
        hive: Seq<char>,
        key: Seq<char>,
        value_name: Seq<char>,
        value_data: Seq<char>,
        value_type: Seq<char>,
    },
    Command { label: Seq<char>, command: Seq<char>, args: Seq<Seq<char>>, wait: bool, fail_on_error: bool },
    EnvVar { label: Seq<char>, name: Seq<char>, value: Seq<char>, scope: Seq<char> },
    RegisterUninstaller { label: Seq<char> },
}

pub enum PrerequisiteView {
    DotNet { minimum_version: Seq<char>, download_url: Option<Seq<char>> },
    VcRedist { year: Seq<char>, arch: Seq<char>, download_url: Option<Seq<char>> },
    OsVersion { minimum: Seq<char> },
    DiskSpace { required_mb: int },
    Custom {
        label: Seq<char>,
        check_command: Seq<char>,
        args: Seq<Seq<char>>,
        expected_exit_code: int,
        error_message: Seq<char>,
        download_url: Option<Seq<char>>,
    },
}

pub struct UninstallConfigView {
    pub enabled: bool,
    pub exe_name: Seq<char>,
    pub extra_remove_paths: Seq<Seq<char>>,
    pub remove_install_dir: bool,
}

pub struct LynxProjectView {
    pub app: AppMetaView,
    pub theme: ThemeView,
    pub files: Seq<FileEntryView>,
    pub steps: Seq<InstallStepView>,
    pub prerequisites: Seq<PrerequisiteView>,
    pub uninstall: Option<UninstallConfigView>,
}

/// The view of an optional string.
pub open spec fn ostr(o: Option<String>) -> Option<Seq<char>> {
    match o {
        Some(s) => Some(s@),
        None => None,
    }
}

/// The views of a list of strings.
pub open spec fn strs(v: Seq<String>) -> Seq<Seq<char>> {
    v.map_values(|s: String| s@)
}

/// The views of a list of string pairs.
pub open spec fn str_pairs(v: Seq<(String, String)>) -> Seq<(Seq<char>, Seq<char>)> {
    v.map_values(|p: (String, String)| (p.0@, p.1@))
}

impl View for AppMeta {
    type V = AppMetaView;

    open spec fn view(&self) -> AppMetaView {
        AppMetaView {
            name: self.name@,
            version: self.version@,
            publisher: self.publisher@,
            id: self.id@,
            icon: ostr(self.icon),
            default_install_dir: self.default_install_dir@,
            url: ostr(self.url),
            description: ostr(self.description),
        }
    }
}

impl View for Theme {
    type V = ThemeView;

    open spec fn view(&self) -> ThemeView {
        ThemeView {
            name: self.name@,
            path: self.path@,
            accent_color: self.accent_color@,
            background_color: ostr(self.background_color),
            custom_vars: str_pairs(self.custom_vars@),
        }
    }
}

impl View for FileEntry {
    type V = FileEntryView;

    open spec fn view(&self) -> FileEntryView {
        FileEntryView {
            source: self.source@,
            destination: self.destination@,
            recursive: self.recursive,
            filter: ostr(self.filter),
            overwrite: self.overwrite,
        }
    }
}

impl View for InstallStep {
    type V = InstallStepView;

    open spec fn view(&self) -> InstallStepView {
        match self {
            InstallStep::Extract { label } => InstallStepView::Extract { label: label@ },
            InstallStep::Shortcut { label, target, locations, name } => InstallStepView::Shortcut {
                label: label@,
                target: target@,
                locations: locations@,
                name: ostr(*name),
            },
            InstallStep::Registry { label, hive, key, value_name, value_data, value_type } =>
                InstallStepView::Registry {
                label: label@,
                hive: hive@,
                key: key@,
                value_name: value_name@,
                value_data: value_data@,
                value_type: value_type@,
            },
            InstallStep::Command { label, command, args, wait, fail_on_error } =>
                InstallStepView::Command {
                label: label@,
                command: command@,
                args: strs(args@),
                wait: *wait,
                fail_on_error: *fail_on_error,
            },
            InstallStep::EnvVar { label, name, value, scope } => InstallStepView::EnvVar {
                label: label@,
                name: name@,
                value: value@,
                scope: scope@,
            },
            InstallStep::RegisterUninstaller { label } => InstallStepView::RegisterUninstaller {
                label: label@,
            },
        }
    }
}

impl View for Prerequisite {
    type V = PrerequisiteView;

    open spec fn view(&self) -> PrerequisiteView {
        match self {
            Prerequisite::DotNet { minimum_version, download_url } => PrerequisiteView::DotNet {
                minimum_version: minimum_version@,
                download_url: ostr(*download_url),
            },
            Prerequisite::VcRedist { year, arch, download_url } => PrerequisiteView::VcRedist {
                year: year@,
                arch: arch@,
                download_url: ostr(*download_url),
            },
            Prerequisite::OsVersion { minimum } => PrerequisiteView::OsVersion { minimum: minimum@ },
            Prerequisite::DiskSpace { required_mb } => PrerequisiteView::DiskSpace {
                required_mb: *required_mb as int,
            },
            Prerequisite::Custom {
                label,
                check_command,
                args,
                expected_exit_code,
                error_message,
                download_url,
            } => PrerequisiteView::Custom {
                label: label@,
                check_command: check_command@,
                args: strs(args@),
                expected_exit_code: *expected_exit_code as int,
                error_message: error_message@,
                download_url: ostr(*download_url),
            },
        }
    }
}

impl View for UninstallConfig {
    type V = UninstallConfigView;

    open spec fn view(&self) -> UninstallConfigView {
        UninstallConfigView {
            enabled: self.enabled,
            exe_name: self.exe_name@,
            extra_remove_paths: strs(self.extra_remove_paths@),
            remove_install_dir: self.remove_install_dir,
        }
    }
}

impl View for LynxProject {
    type V = LynxProjectView;

    open spec fn view(&self) -> LynxProjectView {
        LynxProjectView {
            app: self.app@,
            theme: self.theme@,
            files: self.files@.map_values(|f: FileEntry| f@),
            steps: self.steps@.map_values(|s: InstallStep| s@),
            prerequisites: self.prerequisites@.map_values(|p: Prerequisite| p@),
            uninstall: match self.uninstall {
                Some(u) => Some(u@),
                None => None,
            },
        }
    }
}

// ─────────────────────────────────────────────
//  Defaults
// ─────────────────────────────────────────────

/// The install directory of a project that names none.
pub fn default_install_dir() -> (r: String)
    ensures
        r@ == "{program_files}/{app_name}"@,
{
    String::from_str("{program_files}/{app_name}")
}

/// The accent color of a theme that names none.
pub fn default_accent() -> (r: String)
    ensures
        r@ == "#FF6B35"@,
{
    String::from_str("#FF6B35")
}

/// The theme of a project file that has no `[theme]` table.
pub open spec fn default_theme_view() -> ThemeView {
    ThemeView {
        name: "lynx-default"@,
        path: "themes/lynx-default"@,
        accent_color: "#FF6B35"@,
        background_color: None,
        custom_vars: Seq::empty(),
    }
}

/// The theme of a project file that has no `[theme]` table: `lynx-default`
/// from `themes/lynx-default`, with the default accent color and nothing
/// else set.
pub fn default_theme() -> (r: Theme)
    ensures
        r@ == default_theme_view(),
{
    let custom_vars: Vec<(String, String)> = Vec::new();
    let t = Theme {
        name: String::from_str("lynx-default"),
        path: String::from_str("themes/lynx-default"),
        accent_color: default_accent(),
        background_color: None,
        custom_vars,
    };
    assert(str_pairs(t.custom_vars@) =~= Seq::<(Seq<char>, Seq<char>)>::empty());
    t
}

/// The value of the boolean settings that default to on.
pub fn default_true() -> (r: bool)
    ensures
        r,
{
    true
}

/// The registry value type of a registry step that names none.
pub fn default_reg_type() -> (r: String)
    ensures
        r@ == "REG_SZ"@,
{
    String::from_str("REG_SZ")
}

/// The scope of an environment-variable step that names none.
pub fn default_env_scope() -> (r: String)
    ensures
        r@ == "user"@,
{
    String::from_str("user")
}

/// The uninstaller file name of an uninstall section that names none.
pub fn default_uninstaller_name() -> (r: String)
    ensures
        r@ == "uninstall.exe"@,
{
    String::from_str("uninstall.exe")
}


// ─────────────────────────────────────────────
//  Parse helpers
// ─────────────────────────────────────────────

/// The message of the error for a schema violation.
pub open spec fn schema_message(e: SchemaError) -> Seq<char> {
    match e {
        SchemaError::Missing(k) => "missing field `"@ + k@ + "`"@,
        SchemaError::WrongType(k) => "invalid type for `"@ + k@ + "`"@,
        SchemaError::OutOfRange(k) => "invalid value for `"@ + k@ + "`"@,
        SchemaError::UnknownVariant(k) => "unknown variant in `"@ + k@ + "`"@,
    }
}

/// What reading `content` as a project file gives: `TomlDe` with the
/// parser's error where it is not TOML, `TomlDe` with the schema message
/// where it breaks the schema, and the project otherwise.
pub open spec fn parse_outcome(content: Seq<char>, r: LynxResult<LynxProject>) -> bool {
    match toml_document(content) {
        None => r matches Err(e) && e is TomlDe,
        Some(doc) => match decode_document(doc) {
            Ok(pv) => r matches Ok(p) && p@ == pv,
            Err(se) => r matches Err(e) && e@ == ErrorView::TomlDe(toml_custom_error(schema_message(se))),
        },
    }
}

fn schema_error_message(e: SchemaError) -> (r: String)
    ensures
        r@ == schema_message(e),
{
    match e {
        SchemaError::Missing(k) => concat3("missing field `", k, "`"),
        SchemaError::WrongType(k) => concat3("invalid type for `", k, "`"),
        SchemaError::OutOfRange(k) => concat3("invalid value for `", k, "`"),
        SchemaError::UnknownVariant(k) => concat3("unknown variant in `", k, "`"),
    }
}

/// The first value that `vars` gives `name`.
pub open spec fn var_value(vars: Seq<(Seq<char>, Seq<char>)>, name: Seq<char>) -> Option<Seq<char>>
    decreases vars.len(),
{
    if vars.len() == 0 {
        None
    } else if vars[0].0 == name {
        Some(vars[0].1)
    } else {
        var_value(vars.drop_first(), name)
    }
}

impl Theme {
    /// The value of the custom variable `name`, if the theme sets it.
    pub fn custom_var(&self, name: &str) -> (r: Option<&String>)
        ensures
            match r {
                Some(v) => var_value(self@.custom_vars, name@) == Some(v@),
                None => var_value(self@.custom_vars, name@) is None,
            },
    {
        let n = self.custom_vars.len();
        let mut i: usize = 0;
        assert(str_pairs(self.custom_vars@).skip(0) =~= str_pairs(self.custom_vars@));
        while i < n
            invariant
                n == self.custom_vars@.len(),
                i <= n,
                var_value(str_pairs(self.custom_vars@), name@) == var_value(str_pairs(self.custom_vars@).skip(i as int), name@),
            decreases n - i,
        {
            let ghost rest = str_pairs(self.custom_vars@).skip(i as int);
            assert(rest[0] == (self.custom_vars@[i as int].0@, self.custom_vars@[i as int].1@));
            assert(rest.drop_first() =~= str_pairs(self.custom_vars@).skip(i + 1));
            if str_equal(self.custom_vars[i].0.as_str(), name) {
                return Some(&self.custom_vars[i].1);
            }
            i = i + 1;
        }
        None
    }
}

impl LynxProject {
    /// Parse a `.lynx` project from a TOML string
    pub fn from_toml_str(content: &str) -> (r: LynxResult<Self>)
        ensures
            parse_outcome(content@, r),
            r matches Ok(p) ==> var_names_distinct(p@.theme.custom_vars),
            r matches Ok(p) ==> (toml_document(content@) matches Some(TomlView::Table(t)) && project_in(t, p@)),
    {
        let doc = match parse_document(content) {
            Ok(d) => d,
            Err(e) => {
                return Err(LynxError::TomlDe(e));
            },
        };
        proof {
            lemma_decoded_vars_distinct(doc@);
            if let TomlView::Table(t) = doc@ {
                lemma_decode_reads_document(t);
            }
        }
        match decode_project_exec(&doc) {
            Ok(p) => Ok(p),
            Err(e) => {
                let msg = schema_error_message(e);
                Err(LynxError::TomlDe(custom_toml_error(msg.as_str())))
            },
        }
    }

    /// Serialize this project back to a TOML string. A disk-space
    /// requirement beyond the TOML integer range is refused.
    pub fn to_toml_str(&self) -> (r: LynxResult<String>)
        ensures
            !encodable(self@) ==> (r matches Err(e) && e@ == ErrorView::TomlSer(
                schema_message(SchemaError::OutOfRange("required_mb")),
            )),
            encodable(self@) ==> match toml_rendered(encode_project(self@)) {
                Some(text) => r matches Ok(s) && s@ == text,
                None => r matches Err(e) && e is TomlSer,
            },
            r is Ok && var_names_distinct(self@.theme.custom_vars) ==> keys_unique(encode_project(self@)) && project_in(
                table_of(encode_project(self@)),
                self@,
            ),
    {
        proof {
            if var_names_distinct(self@.theme.custom_vars) {
                lemma_encode_writes_document(self@);
            }
        }
        let tree = match encode_project_exec(self) {
            Some(t) => t,
            None => {
                return Err(LynxError::TomlSer(schema_error_message(SchemaError::OutOfRange("required_mb"))));
            },
        };
        match render_document(&tree) {
            Ok(s) => Ok(s),
            Err(m) => Err(LynxError::TomlSer(m)),
        }
    }
}

} // verus!
