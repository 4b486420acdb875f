//! The builder's project rules: the project a new `.lynx` file starts
//! from, and the checks run on a project before it is built.
use vstd::prelude::*;
use vstd::string::*;
use crate::config::{
    AppMeta, FileEntry, InstallStep, LynxProject, LynxProjectView, Prerequisite, ShortcutLocation, Theme,
    UninstallConfig, default_accent, default_install_dir, default_true, default_uninstaller_name,
};
use crate::text::str_equal;

verus! {

// ─────────────────────────────────────────────
//  New project
// ─────────────────────────────────────────────

/// The project a new `.lynx` file starts from.
pub open spec fn new_project_spec(p: LynxProjectView) -> bool {
    &&& p.app.name == "My App"@
    &&& p.app.version == "1.0.0"@
    &&& p.app.publisher == ""@
    &&& p.app.id == "com.example.myapp"@
    &&& p.app.description == Some(""@)
    &&& p.app.icon is None
    &&& p.app.default_install_dir == "{program_files}/{app_name}"@
    &&& p.app.url is None
    &&& p.theme.name == "lynx-default"@
    &&& p.theme.path == "themes/lynx-default"@
    &&& p.theme.accent_color == "#FF6B35"@
    &&& p.theme.background_color == Some("#1A1A2E"@)
    &&& p.theme.custom_vars.len() == 0
    &&& p.files.len() == 0
    &&& p.steps == seq![
        crate::config::InstallStepView::Extract { label: "Installing application files..."@ },
        crate::config::InstallStepView::Shortcut {
            label: "Creating shortcuts..."@,
            target: "{install_dir}/{app_name}.exe"@,
            locations: seq![ShortcutLocation::Desktop, ShortcutLocation::StartMenu],
            name: None,
        },
        crate::config::InstallStepView::RegisterUninstaller { label: "Finalizing installation..."@ },
    ]
    &&& p.prerequisites.len() == 0
    &&& p.uninstall == Some(
        crate::config::UninstallConfigView {
            enabled: true,
            exe_name: "uninstall.exe"@,
            extra_remove_paths: Seq::empty(),
            remove_install_dir: true,
        },
    )
}

/// Create a new project with sensible defaults
pub fn new_project() -> (r: LynxProject)
    ensures
        new_project_spec(r@),
{
    let app = AppMeta {
        name: String::from_str("My App"),
        version: String::from_str("1.0.0"),
        publisher: String::from_str(""),
        id: String::from_str("com.example.myapp"),
        icon: None,
        default_install_dir: default_install_dir(),
        url: None,
        description: Some(String::from_str("")),
    };
    let theme = Theme {
        name: String::from_str("lynx-default"),
        path: String::from_str("themes/lynx-default"),
        accent_color: default_accent(),
        background_color: Some(String::from_str("#1A1A2E")),
        custom_vars: Vec::new(),
    };
    let mut locations: Vec<ShortcutLocation> = Vec::new();
    locations.push(ShortcutLocation::Desktop);
    locations.push(ShortcutLocation::StartMenu);
    assert(locations@ =~= seq![ShortcutLocation::Desktop, ShortcutLocation::StartMenu]);
    let mut steps: Vec<InstallStep> = Vec::new();
    steps.push(InstallStep::Extract { label: String::from_str("Installing application files...") });
    steps.push(InstallStep::Shortcut {
        label: String::from_str("Creating shortcuts..."),
        target: String::from_str("{install_dir}/{app_name}.exe"),
        locations,
        name: None,
    });
    steps.push(InstallStep::RegisterUninstaller { label: String::from_str("Finalizing installation...") });
    let uninstall = UninstallConfig {
        enabled: default_true(),
        exe_name: default_uninstaller_name(),
        extra_remove_paths: Vec::new(),
        remove_install_dir: default_true(),
    };
    let files: Vec<FileEntry> = Vec::new();
    let prerequisites: Vec<Prerequisite> = Vec::new();
    let p = LynxProject { app, theme, files, steps, prerequisites, uninstall: Some(uninstall) };
    assert(p@.steps =~= seq![
        crate::config::InstallStepView::Extract { label: "Installing application files..."@ },
        crate::config::InstallStepView::Shortcut {
            label: "Creating shortcuts..."@,
            target: "{install_dir}/{app_name}.exe"@,
            locations: seq![ShortcutLocation::Desktop, ShortcutLocation::StartMenu],
            name: None,
        },
        crate::config::InstallStepView::RegisterUninstaller { label: "Finalizing installation..."@ },
    ]);
    assert(p@.uninstall.unwrap().extra_remove_paths =~= Seq::<Seq<char>>::empty());
    p
}

// ─────────────────────────────────────────────
//  Validation
// ─────────────────────────────────────────────

/// The app fields of a project under edit, each `None` where it is absent
/// or not a string.
#[derive(Debug, Clone)]
pub struct AppDraft {
    pub name: Option<String>,
    pub version: Option<String>,
    pub publisher: Option<String>,
    pub id: Option<String>,
}

/// What the checks read of a project under edit: its app fields where it
/// has an app section, the number of files where `files` is a list, and
/// the `kind` of each step (`None` where absent or not a string) where
/// `steps` is a list.
#[derive(Debug, Clone)]
pub struct ProjectDraft {
    pub app: Option<AppDraft>,
    pub file_count: Option<usize>,
    pub step_kinds: Option<Vec<Option<String>>>,
}

/// The outcome of the checks.
#[derive(Debug, Clone)]
pub struct ValidationReport {
    pub valid: bool,
    pub errors: Vec<String>,
    pub warnings: Vec<String>,
}

/// A field that is absent or empty.
pub open spec fn blank(o: Option<String>) -> bool {
    match o {
        None => true,
        Some(s) => s@.len() == 0,
    }
}

pub open spec fn when(c: bool, msg: Seq<char>) -> Seq<Seq<char>> {
    if c {
        seq![msg]
    } else {
        Seq::empty()
    }
}

/// A step kind that names the extract step.
pub open spec fn is_extract(kind: Option<String>) -> bool {
    kind matches Some(s) && s@ == "extract"@
}

/// Whether some step is an extract step.
pub open spec fn has_extract(kinds: Seq<Option<String>>) -> bool {
    exists|k: int| 0 <= k < kinds.len() && #[trigger] is_extract(kinds[k])
}

/// The errors of a project under edit, in order.
pub open spec fn draft_errors(d: ProjectDraft) -> Seq<Seq<char>> {
    (match d.app {
        Some(a) => when(blank(a.name), "App name is required"@) + when(blank(a.version), "App version is required"@)
            + when(blank(a.id), "App ID is required (e.g. com.example.myapp)"@),
        None => seq!["Missing app configuration"@],
    }) + match d.step_kinds {
        Some(k) => when(k@.len() == 0, "No install steps defined"@),
        None => Seq::empty(),
    }
}

/// The warnings of a project under edit, in order.
pub open spec fn draft_warnings(d: ProjectDraft) -> Seq<Seq<char>> {
    (match d.app {
        Some(a) => when(blank(a.publisher), "Publisher name is recommended"@),
        None => Seq::empty(),
    }) + (match d.file_count {
        Some(n) => when(n == 0, "No files added to bundle \u{2014} the installer won't install anything"@),
        None => Seq::empty(),
    }) + match d.step_kinds {
        Some(k) => when(!has_extract(k@), "No extract step \u{2014} files won't be extracted during install"@),
        None => Seq::empty(),
    }
}

/// A field that is present and not empty.
pub open spec fn given(o: Option<String>) -> bool {
    o matches Some(s) && s@.len() > 0
}

proof fn lemma_contains_concat(a: Seq<Seq<char>>, b: Seq<Seq<char>>, x: Seq<char>)
    ensures
        (a + b).contains(x) <==> (a.contains(x) || b.contains(x)),
{
    if (a + b).contains(x) {
        let i = choose|i: int| 0 <= i < (a + b).len() && (a + b)[i] == x;
        if i < a.len() {
            assert(a[i] == x);
        } else {
            assert(b[i - a.len()] == x);
        }
    }
    if a.contains(x) {
        let i = choose|i: int| 0 <= i < a.len() && a[i] == x;
        assert((a + b)[i] == x);
    }
    if b.contains(x) {
        let i = choose|i: int| 0 <= i < b.len() && b[i] == x;
        assert((a + b)[a.len() + i] == x);
    }
}

proof fn lemma_contains_when(c: bool, m: Seq<char>, x: Seq<char>)
    ensures
        (when(c, m)).contains(x) <==> (c && m == x),
        (when(c, m)).len() == (if c { 1int } else { 0int }),
        forall|i: int| 0 <= i < when(c, m).len() ==> #[trigger] when(c, m)[i] == m,
{
    if c {
        assert(when(c, m)[0] == m);
    }
}

/// What the builder's checks report, in terms of the project under edit:
/// each error and each warning is given exactly when its condition holds,
/// no other message is given, and a project has no error exactly when it
/// has an app with a name, a version and an ID and does not have an empty
/// step list. In particular the extract warning is given exactly when the
/// project has a step list in which no step, at any position, is of kind
/// `extract`.
pub proof fn lemma_validation_law(d: ProjectDraft)
    ensures
        draft_warnings(d).contains("No extract step \u{2014} files won't be extracted during install"@) <==> (
        d.step_kinds matches Some(k) && forall|i: int| 0 <= i < k@.len() ==> !(#[trigger] k@[i] matches Some(s) && s@
            == "extract"@)),
        draft_warnings(d).contains(
            "No files added to bundle \u{2014} the installer won't install anything"@,
        ) <==> d.file_count == Some(0usize),
        draft_warnings(d).contains("Publisher name is recommended"@) <==> (d.app matches Some(a) && !given(
            a.publisher,
        )),
        forall|i: int| 0 <= i < draft_warnings(d).len() ==> {
            ||| #[trigger] draft_warnings(d)[i] == "No extract step \u{2014} files won't be extracted during install"@
            ||| draft_warnings(d)[i] == "No files added to bundle \u{2014} the installer won't install anything"@
            ||| draft_warnings(d)[i] == "Publisher name is recommended"@
        },
        draft_errors(d).contains("Missing app configuration"@) <==> d.app is None,
        draft_errors(d).contains("App name is required"@) <==> (d.app matches Some(a) && !given(a.name)),
        draft_errors(d).contains("App version is required"@) <==> (d.app matches Some(a) && !given(a.version)),
        draft_errors(d).contains("App ID is required (e.g. com.example.myapp)"@) <==> (d.app matches Some(a)
            && !given(a.id)),
        draft_errors(d).contains("No install steps defined"@) <==> (d.step_kinds matches Some(k) && k@.len() == 0),
        forall|i: int| 0 <= i < draft_errors(d).len() ==> {
            ||| #[trigger] draft_errors(d)[i] == "Missing app configuration"@
            ||| draft_errors(d)[i] == "App name is required"@
            ||| draft_errors(d)[i] == "App version is required"@
            ||| draft_errors(d)[i] == "App ID is required (e.g. com.example.myapp)"@
            ||| draft_errors(d)[i] == "No install steps defined"@
        },
        draft_errors(d).len() == 0 <==> (d.app matches Some(a) && given(a.name) && given(a.version) && given(a.id)
            && !(d.step_kinds matches Some(k) && k@.len() == 0)),
{
    reveal_strlit("No extract step \u{2014} files won't be extracted during install");
    reveal_strlit("No files added to bundle \u{2014} the installer won't install anything");
    reveal_strlit("Publisher name is recommended");
    reveal_strlit("Missing app configuration");
    reveal_strlit("App name is required");
    reveal_strlit("App version is required");
    reveal_strlit("App ID is required (e.g. com.example.myapp)");
    reveal_strlit("No install steps defined");
    reveal_strlit("extract");
    let ext = "No extract step \u{2014} files won't be extracted during install"@;
    let nof = "No files added to bundle \u{2014} the installer won't install anything"@;
    let pubm = "Publisher name is recommended"@;
    let miss = "Missing app configuration"@;
    let nm = "App name is required"@;
    let ver = "App version is required"@;
    let idm = "App ID is required (e.g. com.example.myapp)"@;
    let nos = "No install steps defined"@;
    let wa = match d.app {
        Some(a) => when(blank(a.publisher), pubm),
        None => Seq::<Seq<char>>::empty(),
    };
    let wb = match d.file_count {
        Some(n) => when(n == 0, nof),
        None => Seq::<Seq<char>>::empty(),
    };
    let wc = match d.step_kinds {
        Some(k) => when(!has_extract(k@), ext),
        None => Seq::<Seq<char>>::empty(),
    };
    assert(draft_warnings(d) == wa + wb + wc);
    match d.app {
        Some(a) => {
            lemma_contains_when(blank(a.publisher), pubm, ext);
            lemma_contains_when(blank(a.publisher), pubm, nof);
            lemma_contains_when(blank(a.publisher), pubm, pubm);
        },
        None => {},
    }
    match d.file_count {
        Some(n) => {
            lemma_contains_when(n == 0, nof, ext);
            lemma_contains_when(n == 0, nof, nof);
            lemma_contains_when(n == 0, nof, pubm);
        },
        None => {},
    }
    match d.step_kinds {
        Some(k) => {
            lemma_contains_when(!has_extract(k@), ext, ext);
            lemma_contains_when(!has_extract(k@), ext, nof);
            lemma_contains_when(!has_extract(k@), ext, pubm);
            assert(has_extract(k@) <==> !(forall|i: int| 0 <= i < k@.len() ==> !(#[trigger] k@[i] matches Some(s)
                && s@ == "extract"@))) by {
                if has_extract(k@) {
                    let j = choose|j: int| 0 <= j < k@.len() && #[trigger] is_extract(k@[j]);
                    assert(k@[j] matches Some(s) && s@ == "extract"@);
                }
                if !(forall|i: int| 0 <= i < k@.len() ==> !(#[trigger] k@[i] matches Some(s) && s@ == "extract"@)) {
                    let j = choose|j: int| 0 <= j < k@.len() && (#[trigger] k@[j] matches Some(s) && s@ == "extract"@);
                    assert(is_extract(k@[j]));
                }
            }
        },
        None => {},
    }
    assert(ext.len() == 57 && nof.len() == 63 && pubm.len() == 29);
    assert(ext != nof && ext != pubm && nof != pubm);
    lemma_contains_concat(wa, wb, ext);
    lemma_contains_concat(wa, wb, nof);
    lemma_contains_concat(wa, wb, pubm);
    lemma_contains_concat(wa + wb, wc, ext);
    lemma_contains_concat(wa + wb, wc, nof);
    lemma_contains_concat(wa + wb, wc, pubm);
    assert(draft_warnings(d).contains(ext) <==> (d.step_kinds matches Some(k) && forall|i: int| 0 <= i < k@.len()
        ==> !(#[trigger] k@[i] matches Some(s) && s@ == "extract"@)));
    assert(draft_warnings(d).contains(nof) <==> d.file_count == Some(0usize));
    assert(draft_warnings(d).contains(pubm) <==> (d.app matches Some(a) && !given(a.publisher)));
    assert forall|i: int| 0 <= i < draft_warnings(d).len() implies {
        ||| #[trigger] draft_warnings(d)[i] == ext
        ||| draft_warnings(d)[i] == nof
        ||| draft_warnings(d)[i] == pubm
    } by {
        let w = draft_warnings(d);
        assert(w.contains(w[i]));
        lemma_contains_concat(wa, wb, w[i]);
        lemma_contains_concat(wa + wb, wc, w[i]);
        match d.app {
            Some(a) => lemma_contains_when(blank(a.publisher), pubm, w[i]),
            None => {},
        }
        match d.file_count {
            Some(n) => lemma_contains_when(n == 0, nof, w[i]),
            None => {},
        }
        match d.step_kinds {
            Some(k) => lemma_contains_when(!has_extract(k@), ext, w[i]),
            None => {},
        }
    }
    let ea = match d.app {
        Some(a) => when(blank(a.name), nm) + when(blank(a.version), ver) + when(blank(a.id), idm),
        None => seq![miss],
    };
    let es = match d.step_kinds {
        Some(k) => when(k@.len() == 0, nos),
        None => Seq::<Seq<char>>::empty(),
    };
    assert(draft_errors(d) == ea + es);
    assert forall|x: Seq<char>| #[trigger] draft_errors(d).contains(x) <==> (match d.app {
        Some(a) => (blank(a.name) && x == nm) || (blank(a.version) && x == ver) || (blank(a.id) && x == idm),
        None => x == miss,
    } || (d.step_kinds matches Some(k) && k@.len() == 0 && x == nos)) by {
        lemma_contains_concat(ea, es, x);
        match d.app {
            Some(a) => {
                lemma_contains_when(blank(a.name), nm, x);
                lemma_contains_when(blank(a.version), ver, x);
                lemma_contains_when(blank(a.id), idm, x);
                lemma_contains_concat(when(blank(a.name), nm), when(blank(a.version), ver), x);
                lemma_contains_concat(when(blank(a.name), nm) + when(blank(a.version), ver), when(blank(a.id), idm), x);
            },
            None => {
                assert(seq![miss][0] == miss);
            },
        }
        match d.step_kinds {
            Some(k) => lemma_contains_when(k@.len() == 0, nos, x),
            None => {},
        }
    }
    assert(miss.len() == 25 && nm.len() == 20 && ver.len() == 23 && idm.len() == 43 && nos.len() == 24);
    assert(miss != nm && miss != ver && miss != idm && miss != nos && nm != ver && nm != idm && nm != nos && ver
        != idm && ver != nos && idm != nos);
    assert(draft_errors(d).contains(miss) <==> d.app is None);
    assert(draft_errors(d).contains(nm) <==> (d.app matches Some(a) && !given(a.name)));
    assert(draft_errors(d).contains(ver) <==> (d.app matches Some(a) && !given(a.version)));
    assert(draft_errors(d).contains(idm) <==> (d.app matches Some(a) && !given(a.id)));
    assert(draft_errors(d).contains(nos) <==> (d.step_kinds matches Some(k) && k@.len() == 0));
    assert forall|i: int| 0 <= i < draft_errors(d).len() implies {
        ||| #[trigger] draft_errors(d)[i] == miss
        ||| draft_errors(d)[i] == nm
        ||| draft_errors(d)[i] == ver
        ||| draft_errors(d)[i] == idm
        ||| draft_errors(d)[i] == nos
    } by {
        assert(draft_errors(d).contains(draft_errors(d)[i]));
    }
    if draft_errors(d).len() > 0 {
        assert(draft_errors(d).contains(draft_errors(d)[0]));
    } else {
        assert(!draft_errors(d).contains(miss));
        assert(!draft_errors(d).contains(nm));
        assert(!draft_errors(d).contains(ver));
        assert(!draft_errors(d).contains(idm));
        assert(!draft_errors(d).contains(nos));
    }
}

fn is_blank(o: &Option<String>) -> (r: bool)
    ensures
        r == blank(*o),
{
    match o {
        None => true,
        Some(s) => s.as_str().unicode_len() == 0,
    }
}

fn push_msg(v: &mut Vec<String>, msg: &str)
    ensures
        crate::config::strs(final(v)@) == crate::config::strs(old(v)@).push(msg@),
{
    v.push(String::from_str(msg));
    assert(crate::config::strs(v@) =~= crate::config::strs(old(v)@).push(msg@));
}

/// Validate a project and return any errors and warnings. The project is
/// valid where there is no error.
pub fn validate_project(draft: &ProjectDraft) -> (r: ValidationReport)
    ensures
        crate::config::strs(r.errors@) == draft_errors(*draft),
        crate::config::strs(r.warnings@) == draft_warnings(*draft),
        r.valid == (r.errors@.len() == 0),
{
    let mut errors: Vec<String> = Vec::new();
    let mut warnings: Vec<String> = Vec::new();
    assert(crate::config::strs(errors@) =~= Seq::<Seq<char>>::empty());
    assert(crate::config::strs(warnings@) =~= Seq::<Seq<char>>::empty());
    match &draft.app {
        Some(a) => {
            if is_blank(&a.name) {
                push_msg(&mut errors, "App name is required");
            }
            if is_blank(&a.version) {
                push_msg(&mut errors, "App version is required");
            }
            if is_blank(&a.publisher) {
                push_msg(&mut warnings, "Publisher name is recommended");
            }
            if is_blank(&a.id) {
                push_msg(&mut errors, "App ID is required (e.g. com.example.myapp)");
            }
        },
        None => {
            push_msg(&mut errors, "Missing app configuration");
        },
    }
    match draft.file_count {
        Some(n) => {
            if n == 0 {
                push_msg(&mut warnings, "No files added to bundle \u{2014} the installer won't install anything");
            }
        },
        None => {},
    }
    match &draft.step_kinds {
        Some(kinds) => {
            if kinds.len() == 0 {
                push_msg(&mut errors, "No install steps defined");
            }
            let mut found = false;
            let mut i: usize = 0;
            while i < kinds.len()
                invariant
                    i <= kinds@.len(),
                    found == exists|k: int| 0 <= k < i && #[trigger] is_extract(kinds@[k]),
                decreases kinds@.len() - i,
            {
                match &kinds[i] {
                    Some(s) => {
                        if str_equal(s.as_str(), "extract") {
                            found = true;
                        }
                        assert(is_extract(kinds@[i as int]) == (s@ == "extract"@));
                    },
                    None => {},
                }
                i = i + 1;
            }
            if !found {
                push_msg(&mut warnings, "No extract step \u{2014} files won't be extracted during install");
            }
        },
        None => {},
    }
    let ghost ev = draft_errors(*draft);
    let ghost wv = draft_warnings(*draft);
    assert(crate::config::strs(errors@) =~= ev);
    assert(crate::config::strs(warnings@) =~= wv);
    let valid = errors.len() == 0;
    ValidationReport { valid, errors, warnings }
}

} // verus!
