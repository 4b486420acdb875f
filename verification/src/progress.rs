//! Progress events that the engine reports to the UI shell while it
//! bundles, extracts and installs.
use vstd::prelude::*;

verus! {

/// One progress report. A file's progress fraction is
/// `bytes_written / max(bytes_total, 1)` (see `ProgressEvent::progress_ratio`).
#[derive(Debug, Clone)]
pub enum ProgressEvent {
    /// Install process is starting
    Started { app_name: String, app_version: String, total_steps: usize },
    /// A specific install step is beginning
    StepBegin { step_index: usize, step_label: String },
    /// File progress within a step
    FileProgress { step_index: usize, file_name: String, bytes_written: u64, bytes_total: u64 },
    /// A step completed successfully
    StepComplete { step_index: usize, step_label: String },
    /// A step was skipped
    StepSkipped { step_index: usize, step_label: String, reason: String },
    /// A non-fatal warning occurred
    Warning { message: String },
    /// Install completed successfully
    Complete { install_dir: String, duration_ms: u64 },
    /// Install failed
    Failed { step_index: Option<usize>, step_label: Option<String>, error: String },
    /// Uninstall progress; the fraction is given in parts per million
    UninstallProgress { fraction_ppm: u32, current_action: String },
    /// Uninstall complete
    UninstallComplete,
}

/// The mathematical value of a `ProgressEvent`: strings as character sequences.
pub enum EventView {
    Started { app_name: Seq<char>, app_version: Seq<char>, total_steps: nat },
    StepBegin { step_index: nat, step_label: Seq<char> },
    FileProgress { step_index: nat, file_name: Seq<char>, bytes_written: nat, bytes_total: nat },
    StepComplete { step_index: nat, step_label: Seq<char> },
    StepSkipped { step_index: nat, step_label: Seq<char>, reason: Seq<char> },
    Warning { message: Seq<char> },
    Complete { install_dir: Seq<char>, duration_ms: nat },
    Failed { step_index: Option<nat>, step_label: Option<Seq<char>>, error: Seq<char> },
    UninstallProgress { fraction_ppm: nat, current_action: Seq<char> },
    UninstallComplete,
}

/// The view of an optional string.
pub open spec fn opt_view(o: Option<String>) -> Option<Seq<char>> {
    match o {
        Some(s) => Some(s@),
        None => None,
    }
}

impl View for ProgressEvent {
    type V = EventView;

    open spec fn view(&self) -> EventView {
        match self {
            ProgressEvent::Started { app_name, app_version, total_steps } => EventView::Started {
                app_name: app_name@,
                app_version: app_version@,
                total_steps: *total_steps as nat,
            },
            ProgressEvent::StepBegin { step_index, step_label } => EventView::StepBegin {
                step_index: *step_index as nat,
                step_label: step_label@,
            },
            ProgressEvent::FileProgress { step_index, file_name, bytes_written, bytes_total } =>
                EventView::FileProgress {
                step_index: *step_index as nat,
                file_name: file_name@,
                bytes_written: *bytes_written as nat,
                bytes_total: *bytes_total as nat,
            },
            ProgressEvent::StepComplete { step_index, step_label } => EventView::StepComplete {
                step_index: *step_index as nat,
                step_label: step_label@,
            },
            ProgressEvent::StepSkipped { step_index, step_label, reason } => EventView::StepSkipped {
                step_index: *step_index as nat,
                step_label: step_label@,
                reason: reason@,
            },
            ProgressEvent::Warning { message } => EventView::Warning { message: message@ },
            ProgressEvent::Complete { install_dir, duration_ms } => EventView::Complete {
                install_dir: install_dir@,
                duration_ms: *duration_ms as nat,
            },
            ProgressEvent::Failed { step_index, step_label, error } => EventView::Failed {
                step_index: match step_index {
                    Some(i) => Some(*i as nat),
                    None => None,
                },
                step_label: opt_view(*step_label),
                error: error@,
            },
            ProgressEvent::UninstallProgress { fraction_ppm, current_action } =>
                EventView::UninstallProgress {
                fraction_ppm: *fraction_ppm as nat,
                current_action: current_action@,
            },
            ProgressEvent::UninstallComplete => EventView::UninstallComplete,
        }
    }
}

impl ProgressEvent {
    /// For a `FileProgress` event, the numerator and denominator of its
    /// progress fraction: `bytes_written` over `max(bytes_total, 1)`.
    pub fn progress_ratio(&self) -> (r: Option<(u64, u64)>)
        ensures
            match self {
                ProgressEvent::FileProgress { bytes_written, bytes_total, .. } => r == Some(
                    (*bytes_written, if *bytes_total == 0 { 1u64 } else { *bytes_total }),
                ),
                _ => r is None,
            },
    {
        match self {
            ProgressEvent::FileProgress { bytes_written, bytes_total, .. } => {
                let den = if *bytes_total == 0 { 1u64 } else { *bytes_total };
                Some((*bytes_written, den))
            },
            _ => None,
        }
    }
}

} // verus!
