//! The installer shell's side of the engine: the project it carries and
//! the summary of it that the installer window shows.
use vstd::prelude::*;
use vstd::string::*;
use crate::config::{LynxProject, ostr};

verus! {

/// `lines` joined by newlines.
pub open spec fn join_lines(lines: Seq<Seq<char>>) -> Seq<char>
    decreases lines.len(),
{
    if lines.len() == 0 {
        Seq::empty()
    } else if lines.len() == 1 {
        lines[0]
    } else {
        join_lines(lines.drop_last()) + "\n"@ + lines.last()
    }
}

/// The strings `lines` joined by newlines.
pub fn join_with_newlines(lines: &[&str]) -> (r: String)
    ensures
        r@ == join_lines(lines@.map_values(|s: &str| s@)),
{
    let ghost views = lines@.map_values(|s: &str| s@);
    let mut out = String::new();
    let mut i: usize = 0;
    assert(views.take(0) =~= Seq::<Seq<char>>::empty());
    while i < lines.len()
        invariant
            i <= lines@.len(),
            views == lines@.map_values(|s: &str| s@),
            out@ == join_lines(views.take(i as int)),
        decreases lines@.len() - i,
    {
        if i > 0 {
            out.append("\n");
        }
        out.append(lines[i]);
        proof {
            let t = views.take(i + 1);
            assert(t.drop_last() =~= views.take(i as int));
            assert(t.last() == lines@[i as int]@);
            if i == 0 {
                assert(out@ =~= join_lines(t));
            }
        }
        i = i + 1;
    }
    assert(views.take(lines@.len() as int) =~= views);
    out
}

/// The lines of the project that the shell carries.
pub open spec fn embedded_lines() -> Seq<Seq<char>> {
    seq![
        "[app]"@,
        "name = \"My Awesome App\""@,
        "version = \"2.1.0\""@,
        "publisher = \"Acme Corp\""@,
        "id = \"com.acme.myawesomeapp\""@,
        "description = \"The most awesome app ever made.\""@,
        "default_install_dir = \"{local_app_data}/MyAwesomeApp\""@,
        ""@,
        "[theme]"@,
        "name = \"lynx-default\""@,
        "path = \"themes/lynx-default\""@,
        "accent_color = \"#FF6B35\""@,
        ""@,
        "[[steps]]"@,
        "kind = \"extract\""@,
        "label = \"Installing application files...\""@,
    ]
}

/// The project file that the shell carries.
pub fn embedded_project_toml() -> (r: String)
    ensures
        r@ == join_lines(embedded_lines()),
{
    let lines: [&str; 16] = [
        "[app]",
        "name = \"My Awesome App\"",
        "version = \"2.1.0\"",
        "publisher = \"Acme Corp\"",
        "id = \"com.acme.myawesomeapp\"",
        "description = \"The most awesome app ever made.\"",
        "default_install_dir = \"{local_app_data}/MyAwesomeApp\"",
        "",
        "[theme]",
        "name = \"lynx-default\"",
        "path = \"themes/lynx-default\"",
        "accent_color = \"#FF6B35\"",
        "",
        "[[steps]]",
        "kind = \"extract\"",
        "label = \"Installing application files...\"",
    ];
    let sl = lines.as_slice();
    assert(sl@.map_values(|s: &str| s@) =~= embedded_lines());
    join_with_newlines(sl)
}

/// What the installer window shows of the project.
#[derive(Debug, Clone)]
pub struct InstallSummary {
    pub app_name: String,
    pub app_version: String,
    pub app_publisher: String,
    pub app_description: Option<String>,
    pub app_icon: Option<String>,
    pub accent_color: String,
    pub background_color: Option<String>,
    pub default_install_dir: String,
    pub total_steps: usize,
}

/// The summary of `project` that the installer window shows.
pub fn install_summary(project: &LynxProject) -> (r: InstallSummary)
    ensures
        r.app_name@ == project.app.name@,
        r.app_version@ == project.app.version@,
        r.app_publisher@ == project.app.publisher@,
        ostr(r.app_description) == ostr(project.app.description),
        ostr(r.app_icon) == ostr(project.app.icon),
        r.accent_color@ == project.theme.accent_color@,
        ostr(r.background_color) == ostr(project.theme.background_color),
        r.default_install_dir@ == project.app.default_install_dir@,
        r.total_steps == project.steps@.len(),
{
    InstallSummary {
        app_name: project.app.name.clone(),
        app_version: project.app.version.clone(),
        app_publisher: project.app.publisher.clone(),
        app_description: project.app.description.clone(),
        app_icon: project.app.icon.clone(),
        accent_color: project.theme.accent_color.clone(),
        background_color: project.theme.background_color.clone(),
        default_install_dir: project.app.default_install_dir.clone(),
        total_steps: project.steps.len(),
    }
}

} // verus!
