//! Bundling: which files go into a `.lynxpak`, under which archive paths and
//! destinations, and what the bundle's manifest and progress reports say.
//! The files are read and the archive is written by the caller; the
//! archive is compressed by `crate::payload::compress_payload`.
use vstd::prelude::*;
use vstd::string::*;
use crate::config::{FileEntry, LynxProject, ostr};
use crate::progress::{EventView, ProgressEvent};
use crate::text::{
    chars_of, concat, concat3, decimal, decimal_string, ends_with, ends_with_spec, replace_char,
    replace_char_spec, str_equal,
};

verus! {

/// The engine version that bundles record.
pub const ENGINE_VERSION: &'static str = "0.1.0";

/// The archive path of a bundle's manifest (JSON): the first entry of the archive,
/// before the files it lists.
pub const MANIFEST_PATH: &'static str = "lynxpak.json";

// ─────────────────────────────────────────────
//  Manifest (stored inside the .lynxpak)
// ─────────────────────────────────────────────

#[derive(Debug, Clone)]
pub struct BundleManifest {
    /// Lynx engine version that created this bundle
    pub lynx_version: String,
    /// App name
    pub app_name: String,
    /// App version
    pub app_version: String,
    /// Total number of files in the bundle
    pub file_count: usize,
    /// Total uncompressed size in bytes
    pub total_bytes: u64,
    /// All file entries with their destination tokens
    pub entries: Vec<BundleEntry>,
}

#[derive(Debug, Clone)]
pub struct BundleEntry {
    /// Path inside the tar archive
    pub archive_path: String,
    /// Destination token path e.g. "{install_dir}/myapp.exe"
    pub destination: String,
    /// File size in bytes
    pub size: u64,
}

// ─────────────────────────────────────────────
//  Simple glob matcher (supports * wildcard only)
// ─────────────────────────────────────────────

/// `*` matches every name, `*.ext` every name that ends with `.ext`, and
/// any other pattern only the name equal to it.
pub open spec fn glob_matches(pattern: Seq<char>, text: Seq<char>) -> bool {
    if pattern == seq!['*'] {
        true
    } else if pattern.len() >= 2 && pattern[0] == '*' && pattern[1] == '.' {
        ends_with_spec(text, pattern.skip(1))
    } else {
        pattern == text
    }
}

/// What a filter matches: `*` matches every file name; `*.ext` matches
/// exactly the names that end with `.ext`; any other pattern (one that does
/// not start with `*`, or starts with `*` followed by something other than
/// `.`) matches only the name equal to it.
pub proof fn lemma_glob_law(pattern: Seq<char>, text: Seq<char>)
    ensures
        pattern == seq!['*'] ==> glob_matches(pattern, text),
        pattern.len() >= 2 && pattern[0] == '*' && pattern[1] == '.' ==> (glob_matches(pattern, text) <==> {
            let n = (pattern.len() - 1) as int;
            &&& n <= text.len()
            &&& forall|j: int| 0 <= j < n ==> #[trigger] text[text.len() - n + j] == pattern[1 + j]
        }),
        !(pattern == seq!['*']) && !(pattern.len() >= 2 && pattern[0] == '*' && pattern[1] == '.') ==> (
        glob_matches(pattern, text) <==> pattern == text),
        pattern.len() > 0 && pattern[0] != '*' ==> (glob_matches(pattern, text) <==> pattern == text),
{
    if pattern.len() >= 2 && pattern[0] == '*' && pattern[1] == '.' {
        assert(pattern != seq!['*']);
        let n = (pattern.len() - 1) as int;
        let suf = pattern.skip(1);
        if n <= text.len() {
            if forall|j: int| 0 <= j < n ==> #[trigger] text[text.len() - n + j] == pattern[1 + j] {
                assert forall|j: int| 0 <= j < n implies text.skip(text.len() - n)[j] == suf[j] by {
                    assert(text[text.len() - n + j] == pattern[1 + j]);
                }
                assert(text.skip(text.len() - n) =~= suf);
            }
            if text.skip(text.len() - n) == suf {
                assert forall|j: int| 0 <= j < n implies #[trigger] text[text.len() - n + j] == pattern[1 + j] by {
                    assert(text.skip(text.len() - n)[j] == suf[j]);
                }
            }
        }
    }
    if pattern.len() > 0 && pattern[0] != '*' {
        assert(pattern != seq!['*']) by {
            if pattern == seq!['*'] {
                assert(pattern[0] == '*');
            }
        }
    }
}

/// Whether the file name `text` matches the glob `pattern`.
pub fn glob_match(pattern: &str, text: &str) -> (r: bool)
    ensures
        r == glob_matches(pattern@, text@),
{
    let p = chars_of(pattern);
    if p.len() == 1 && p[0] == '*' {
        assert(pattern@ =~= seq!['*']);
        return true;
    }
    assert(pattern@ != seq!['*']);
    if p.len() >= 2 && p[0] == '*' && p[1] == '.' {
        let mut suffix: Vec<char> = Vec::new();
        let mut i: usize = 1;
        while i < p.len()
            invariant
                p@ == pattern@,
                1 <= i <= p@.len(),
                suffix@ == p@.subrange(1, i as int),
            decreases p@.len() - i,
        {
            suffix.push(p[i]);
            i = i + 1;
            assert(suffix@ =~= p@.subrange(1, i as int));
        }
        assert(suffix@ =~= pattern@.skip(1));
        let s = crate::text::string_of(&suffix);
        return ends_with(text, s.as_str());
    }
    str_equal(pattern, text)
}

/// Whether a file named `file_name` that `entry` names or finds is bundled:
/// always where the entry has no filter, otherwise where the name matches it.
pub fn include_file(entry: &FileEntry, file_name: &str) -> (r: bool)
    ensures
        r == match entry@.filter {
            None => true,
            Some(f) => glob_matches(f, file_name@),
        },
{
    match &entry.filter {
        None => true,
        Some(f) => glob_match(f.as_str(), file_name),
    }
}

/// A path with every `\` turned into `/`: the archive path of a file,
/// given its path relative to the project root.
pub fn archive_path(relative: &str) -> (r: String)
    ensures
        r@ == replace_char_spec(relative@, '\\', '/'),
{
    replace_char(relative, '\\', '/')
}

/// The destination of a file found under an entry's directory:
/// the entry's destination, `/`, and the file's relative path with `/`
/// separators.
pub fn walk_destination(destination: &str, relative: &str) -> (r: String)
    ensures
        r@ == destination@ + "/"@ + replace_char_spec(relative@, '\\', '/'),
{
    let rel = replace_char(relative, '\\', '/');
    concat3(destination, "/", rel.as_str())
}

// ─────────────────────────────────────────────
//  Bundle plan
// ─────────────────────────────────────────────

/// A file that was found for bundling.
#[derive(Debug, Clone)]
pub struct CollectedFile {
    /// Path inside the tar archive
    pub archive_path: String,
    /// Destination token path
    pub destination: String,
    /// File size in bytes
    pub size: u64,
    /// File name shown in progress reports
    pub file_name: String,
}

/// Everything a bundling run reports and records, in order: the opening
/// event, one event after each file is added, the closing event, and the
/// manifest.
#[derive(Debug, Clone)]
pub struct BundlePlan {
    pub begin: ProgressEvent,
    pub file_events: Vec<ProgressEvent>,
    pub complete: ProgressEvent,
    pub manifest: BundleManifest,
}

/// The sum of the sizes of the first `k` files.
pub open spec fn bytes_before(files: Seq<CollectedFile>, k: int) -> int
    decreases k,
{
    if k <= 0 || k > files.len() {
        0
    } else {
        bytes_before(files, k - 1) + files[k - 1].size
    }
}

/// The sum of all the sizes.
pub open spec fn total_size(files: Seq<CollectedFile>) -> int {
    bytes_before(files, files.len() as int)
}

proof fn lemma_bytes_before_mono(files: Seq<CollectedFile>, a: int, b: int)
    requires
        0 <= a <= b <= files.len(),
    ensures
        bytes_before(files, a) <= bytes_before(files, b),
    decreases b - a,
{
    if a < b {
        lemma_bytes_before_mono(files, a, b - 1);
    }
}

/// The label of the opening event: `Bundling N files (K KB)...`.
pub open spec fn bundle_label(count: nat, total: nat) -> Seq<char> {
    "Bundling "@ + decimal(count) + " files ("@ + decimal(total / 1024) + " KB)..."@
}

/// The manifest entries record `files` one for one, in order: each with the
/// file's archive path, destination and size.
pub open spec fn records_files(entries: Seq<BundleEntry>, files: Seq<CollectedFile>) -> bool {
    &&& entries.len() == files.len()
    &&& forall|i: int| 0 <= i < files.len() ==> {
        &&& (#[trigger] entries[i]).archive_path@ == files[i].archive_path@
        &&& entries[i].destination@ == files[i].destination@
        &&& entries[i].size == files[i].size
    }
}

/// The total size of the files, if it fits in 64 bits.
pub fn checked_total_size(files: &Vec<CollectedFile>) -> (r: Option<u64>)
    ensures
        match r {
            Some(t) => t == total_size(files@),
            None => total_size(files@) > u64::MAX,
        },
{
    let mut total: u64 = 0;
    let n = files.len();
    let mut i: usize = 0;
    while i < n
        invariant
            n == files@.len(),
            i <= n,
            total == bytes_before(files@, i as int),
        decreases n - i,
    {
        let s = files[i].size;
        if total > u64::MAX - s {
            proof {
                lemma_bytes_before_mono(files@, i + 1, n as int);
            }
            return None;
        }
        total = total + s;
        i = i + 1;
    }
    Some(total)
}

/// The events and manifest of bundling `files` for `project`.
pub fn plan_bundle(project: &LynxProject, files: &Vec<CollectedFile>, lynx_version: &str) -> (r: BundlePlan)
    requires
        total_size(files@) <= u64::MAX,
    ensures
        r.begin@ == (EventView::StepBegin {
            step_index: 0,
            step_label: bundle_label(files@.len(), total_size(files@) as nat),
        }),
        r.file_events@.len() == files@.len(),
        forall|i: int| 0 <= i < files@.len() ==> (#[trigger] r.file_events@[i])@ == (EventView::FileProgress {
            step_index: 0,
            file_name: files@[i].file_name@,
            bytes_written: bytes_before(files@, i + 1) as nat,
            bytes_total: total_size(files@) as nat,
        }),
        r.complete@ == (EventView::StepComplete { step_index: 0, step_label: "Bundle complete"@ }),
        r.manifest.lynx_version@ == lynx_version@,
        r.manifest.app_name@ == project.app.name@,
        r.manifest.app_version@ == project.app.version@,
        r.manifest.file_count == files@.len(),
        r.manifest.total_bytes == total_size(files@),
        records_files(r.manifest.entries@, files@),
{
    let n = files.len();
    let mut total: u64 = 0;
    let mut i: usize = 0;
    while i < n
        invariant
            n == files@.len(),
            i <= n,
            total == bytes_before(files@, i as int),
            total_size(files@) <= u64::MAX,
        decreases n - i,
    {
        proof {
            lemma_bytes_before_mono(files@, i + 1, n as int);
        }
        total = total + files[i].size;
        i = i + 1;
    }
    let count = decimal_string(n as u64);
    let kb = decimal_string(total / 1024);
    let mut label = concat3("Bundling ", count.as_str(), " files (");
    label.append(kb.as_str());
    label.append(" KB)...");
    let begin = ProgressEvent::StepBegin { step_index: 0, step_label: label };
    let mut events: Vec<ProgressEvent> = Vec::new();
    let mut entries: Vec<BundleEntry> = Vec::new();
    let mut written: u64 = 0;
    let mut i: usize = 0;
    while i < n
        invariant
            n == files@.len(),
            i <= n,
            total == total_size(files@),
            total <= u64::MAX,
            written == bytes_before(files@, i as int),
            events@.len() == i,
            entries@.len() == i,
            forall|k: int| 0 <= k < i ==> (#[trigger] events@[k])@ == (EventView::FileProgress {
                step_index: 0,
                file_name: files@[k].file_name@,
                bytes_written: bytes_before(files@, k + 1) as nat,
                bytes_total: total as nat,
            }),
            forall|k: int| 0 <= k < i ==> {
                &&& (#[trigger] entries@[k]).archive_path@ == files@[k].archive_path@
                &&& entries@[k].destination@ == files@[k].destination@
                &&& entries@[k].size == files@[k].size
            },
        decreases n - i,
    {
        proof {
            lemma_bytes_before_mono(files@, i + 1, n as int);
        }
        written = written + files[i].size;
        events.push(ProgressEvent::FileProgress {
            step_index: 0,
            file_name: files[i].file_name.clone(),
            bytes_written: written,
            bytes_total: total,
        });
        entries.push(BundleEntry {
            archive_path: files[i].archive_path.clone(),
            destination: files[i].destination.clone(),
            size: files[i].size,
        });
        i = i + 1;
    }
    let manifest = BundleManifest {
        lynx_version: String::from_str(lynx_version),
        app_name: project.app.name.clone(),
        app_version: project.app.version.clone(),
        file_count: n,
        total_bytes: total,
        entries,
    };
    BundlePlan {
        begin,
        file_events: events,
        complete: ProgressEvent::StepComplete { step_index: 0, step_label: String::from_str("Bundle complete") },
        manifest,
    }
}

} // verus!
