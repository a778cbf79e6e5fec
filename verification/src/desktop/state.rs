//! The desktop window's state apart from the toolkit: the archive on
//! display, the folder and selection, the running job and the status line,
//! and how each user action and job event changes them.

use vstd::prelude::*;

use crate::desktop::archive::LoadedArchive;
use crate::desktop::browser::{is_level_name, level_names, select_all_result, completed_message_key, count_text, is_cancellation, name_set, toggle_folder, toggled, JobProgress, Selection};
use crate::desktop::i18n::{I18n, MessageKey};
use crate::desktop::settings::SettingsFile;
use crate::desktop::workspace::{completed_key, operation_key, operation_message_key};
use crate::operation::{OperationKind, OperationReport};
use crate::progress::ProgressEvent;
use crate::text::{append_str, decimal};

verus! {

/// How a worker job of the window ended.
pub enum JobOutcome {
    /// An archive was opened and listed.
    Archive(LoadedArchive),
    /// An operation finished with its report.
    Report(OperationReport),
    /// The job failed with this message.
    Failed(String),
}

/// The window's state.
pub struct WorkspaceState {
    /// The archive on display.
    pub archive: Option<LoadedArchive>,
    /// The folder on display; empty for the archive's root.
    pub current_prefix: String,
    /// The expanded folders of the tree.
    pub expanded: Vec<String>,
    /// The selected rows and the pointer gesture.
    pub selection: Selection,
    /// The status line.
    pub status: String,
    /// The running job, if any.
    pub operation: Option<JobProgress>,
    /// Whether the settings page is shown.
    pub settings_open: bool,
}

/// A status line made of a label and a detail: "label: detail".
pub open spec fn labelled(label: Seq<char>, detail: Seq<char>) -> Seq<char> {
    label + ": "@ + detail
}

/// A status line made of a message and a count of objects.
pub open spec fn counted(message: Seq<char>, count: nat, objects: Seq<char>) -> Seq<char> {
    message + " \u{b7} "@ + decimal(count) + " "@ + objects
}

fn labelled_text(label: String, detail: &str) -> (r: String)
    ensures
        r@ == labelled(label@, detail@),
{
    let mut r = label;
    append_str(&mut r, ": ");
    append_str(&mut r, detail);
    r
}

fn counted_text(message: String, count: u64, objects: &str) -> (r: String)
    ensures
        r@ == counted(message@, count as nat, objects@),
{
    let mut r = message;
    append_str(&mut r, " \u{b7} ");
    let tail = count_text(count, objects);
    append_str(&mut r, tail.as_str());
    r
}

impl WorkspaceState {
    /// A window with no archive, ready.
    pub fn new(i18n: &I18n) -> (r: Self)
        ensures
            r.archive is None,
            r.current_prefix@ == Seq::<char>::empty(),
            r.expanded@.len() == 0,
            r.selection.selected_set() == Set::<Seq<char>>::empty(),
            r.status@ == i18n.text_of(MessageKey::Ready),
            r.operation is None,
            !r.settings_open,
    {
        WorkspaceState {
            archive: None,
            current_prefix: String::new(),
            expanded: Vec::new(),
            selection: Selection::new(),
            status: i18n.text(MessageKey::Ready),
            operation: None,
            settings_open: false,
        }
    }

    /// Whether a job runs.
    pub fn is_busy(&self) -> (r: bool)
        ensures
            r == self.operation is Some,
    {
        self.operation.is_some()
    }

    /// Closes the archive, unless a job runs: nothing on display, nothing
    /// expanded or selected, ready.
    pub fn close_archive(&mut self, i18n: &I18n)
        ensures
            old(self).operation is Some ==> *final(self) == *old(self),
            old(self).operation is None ==> {
                &&& final(self).archive is None
                &&& final(self).current_prefix@ == Seq::<char>::empty()
                &&& final(self).expanded@.len() == 0
                &&& final(self).selection.selected_set() == Set::<Seq<char>>::empty()
                &&& final(self).selection.anchor is None
                &&& !final(self).selection.dragging
                &&& final(self).status@ == i18n.text_of(MessageKey::Ready)
                &&& final(self).operation is None
                &&& final(self).settings_open == old(self).settings_open
            },
    {
        if self.is_busy() {
            return;
        }
        self.archive = None;
        self.current_prefix = String::new();
        self.expanded = Vec::new();
        self.selection.clear();
        self.status = i18n.text(MessageKey::Ready);
    }

    /// Shows another folder; the selection and gesture are dropped.
    pub fn navigate_to(&mut self, prefix: String)
        ensures
            final(self).current_prefix@ == prefix@,
            final(self).selection.selected_set() == Set::<Seq<char>>::empty(),
            final(self).selection.anchor is None,
            !final(self).selection.dragging,
            final(self).archive == old(self).archive,
            final(self).expanded == old(self).expanded,
            final(self).status == old(self).status,
            final(self).operation == old(self).operation,
            final(self).settings_open == old(self).settings_open,
    {
        self.current_prefix = prefix;
        self.selection.clear();
    }

    /// Selects every name of the folder on display, or nothing when all of
    /// them were selected; without an archive nothing changes.
    pub fn select_all(&mut self)
        ensures
            old(self).archive is None ==> *final(self) == *old(self),
            old(self).archive matches Some(a) ==> {
                &&& final(self).selection.selected_set() == select_all_result(
                    old(self).selection.selected_set(),
                    Set::new(|s: Seq<char>| is_level_name(a.entries@, old(self).current_prefix@, s)),
                )
                &&& final(self).selection.anchor is None
                &&& !final(self).selection.dragging
            },
            final(self).archive == old(self).archive,
            final(self).current_prefix == old(self).current_prefix,
    {
        let names = match &self.archive {
            Some(a) => level_names(&a.entries, self.current_prefix.as_str()),
            None => {
                return;
            },
        };
        proof {
            let a = self.archive->0;
            assert(name_set(names@) =~= Set::new(|s: Seq<char>| is_level_name(a.entries@, self.current_prefix@, s)));
        }
        self.selection.select_all(&names);
    }

    /// Expands or collapses a folder of the tree; the root stays.
    pub fn toggle_folder(&mut self, prefix: &str)
        ensures
            prefix@.len() == 0 ==> final(self).expanded@ == old(self).expanded@,
            prefix@.len() > 0 ==> name_set(final(self).expanded@) == toggled(name_set(old(self).expanded@), prefix@),
            final(self).current_prefix == old(self).current_prefix,
            final(self).selection == old(self).selection,
    {
        toggle_folder(&mut self.expanded, prefix);
    }

    /// Shows the settings page.
    pub fn open_settings(&mut self)
        ensures
            final(self).settings_open,
            final(self).status == old(self).status,
    {
        self.settings_open = true;
    }

    /// Returns to the archive page, ready.
    pub fn close_settings(&mut self, i18n: &I18n)
        ensures
            !final(self).settings_open,
            final(self).status@ == i18n.text_of(MessageKey::Ready),
            final(self).operation == old(self).operation,
    {
        self.settings_open = false;
        self.status = i18n.text(MessageKey::Ready);
    }

    /// Shows an error; any job is forgotten.
    pub fn set_error(&mut self, i18n: &I18n, error: &str)
        ensures
            final(self).status@ == labelled(i18n.text_of(MessageKey::Error), error@),
            final(self).operation is None,
            final(self).archive == old(self).archive,
            final(self).settings_open == old(self).settings_open,
    {
        self.status = labelled_text(i18n.text(MessageKey::Error), error);
        self.operation = None;
    }

    /// The settings after an edit: the edited ones when they were valid and
    /// saved, announced on the status line; else the previous ones, with the
    /// failure shown as an error.
    pub fn settings_after_edit(
        &mut self,
        i18n: &I18n,
        previous: SettingsFile,
        edited: SettingsFile,
        failure: Option<String>,
    ) -> (r: SettingsFile)
        ensures
            failure matches Some(m) ==> r == previous && final(self).status@ == labelled(
                i18n.text_of(MessageKey::Error),
                m@,
            ) && final(self).operation is None,
            failure is None ==> r == edited && final(self).status@ == i18n.text_of(MessageKey::SettingsSaved)
                && final(self).operation == old(self).operation,
            final(self).archive == old(self).archive,
    {
        match failure {
            Some(m) => {
                self.set_error(i18n, m.as_str());
                previous
            },
            None => {
                self.status = i18n.text(MessageKey::SettingsSaved);
                edited
            },
        }
    }

    /// Starts a job of `kind`: nothing processed yet, and its label on the
    /// status line.
    pub fn start_job(&mut self, kind: OperationKind, i18n: &I18n)
        ensures
            final(self).operation matches Some(p) && p.kind == kind && p.processed == 0 && p.total is None
                && p.current is None,
            final(self).status@ == i18n.text_of(operation_key(kind)),
            final(self).archive == old(self).archive,
    {
        self.operation = Some(JobProgress { kind, processed: 0, total: None, current: None });
        self.status = i18n.text(operation_message_key(kind));
    }

    /// Applies a progress event of the running job; a warning goes to the
    /// status line. Without a job nothing changes.
    pub fn apply_progress(&mut self, event: ProgressEvent, i18n: &I18n)
        ensures
            old(self).operation is None ==> *final(self) == *old(self),
            old(self).operation is Some ==> {
                &&& final(self).operation is Some
                &&& match event {
                    ProgressEvent::Warning(m) => final(self).status@ == labelled(i18n.text_of(MessageKey::Warning), m@)
                        && final(self).operation == old(self).operation,
                    _ => final(self).status == old(self).status,
                }
            },
            final(self).archive == old(self).archive,
    {
        let mut progress = match self.operation.take() {
            Some(p) => p,
            None => {
                return;
            },
        };
        let warning = progress.apply(event);
        self.operation = Some(progress);
        if let Some(message) = warning {
            self.status = labelled_text(i18n.text(MessageKey::Warning), message.as_str());
        }
    }

    /// Ends the running job: an opened archive is shown from its root with
    /// nothing expanded or selected; a report shows its completion message
    /// and count; a cancelled job says so; any other failure is an error.
    pub fn finish_job(&mut self, outcome: JobOutcome, cancelled: bool, i18n: &I18n)
        ensures
            final(self).operation is None,
            match outcome {
                JobOutcome::Archive(a) => {
                    &&& final(self).archive == Some(a)
                    &&& final(self).current_prefix@ == Seq::<char>::empty()
                    &&& final(self).expanded@.len() == 0
                    &&& final(self).selection.selected_set() == Set::<Seq<char>>::empty()
                    &&& final(self).status@ == counted(
                        i18n.text_of(MessageKey::ArchiveOpened),
                        a.entries@.len(),
                        i18n.text_of(MessageKey::Objects),
                    )
                },
                JobOutcome::Report(r) => {
                    &&& final(self).archive == old(self).archive
                    &&& final(self).status@ == counted(
                        i18n.text_of(completed_key(
                            match r.operation {
                                Some(k) => k,
                                None => OperationKind::List,
                            },
                        )),
                        r.entries_completed as nat,
                        i18n.text_of(MessageKey::Objects),
                    )
                },
                JobOutcome::Failed(e) => {
                    &&& final(self).archive == old(self).archive
                    &&& (cancelled || e@ == "operation cancelled"@) ==> final(self).status@ == i18n.text_of(
                        MessageKey::OperationCancelled,
                    )
                    &&& !(cancelled || e@ == "operation cancelled"@) ==> final(self).status@ == labelled(
                        i18n.text_of(MessageKey::Error),
                        e@,
                    )
                },
            },
    {
        self.operation = None;
        match outcome {
            JobOutcome::Archive(a) => {
                let count = a.entries.len() as u64;
                self.archive = Some(a);
                self.current_prefix = String::new();
                self.expanded = Vec::new();
                self.selection.selected = Vec::new();
                proof {
                    assert(name_set(self.selection.selected@) =~= Set::<Seq<char>>::empty());
                }
                let objects = i18n.text(MessageKey::Objects);
                self.status = counted_text(i18n.text(MessageKey::ArchiveOpened), count, objects.as_str());
            },
            JobOutcome::Report(r) => {
                let kind = match r.operation {
                    Some(k) => k,
                    None => OperationKind::List,
                };
                let objects = i18n.text(MessageKey::Objects);
                self.status = counted_text(i18n.text(completed_message_key(kind)), r.entries_completed, objects.as_str());
            },
            JobOutcome::Failed(e) => {
                if is_cancellation(cancelled, e.as_str()) {
                    self.status = i18n.text(MessageKey::OperationCancelled);
                } else {
                    self.set_error(i18n, e.as_str());
                }
            },
        }
    }
}

} // verus!
