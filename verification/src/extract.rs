//! The extraction of an archive, planned: what is to be created on disk, in
//! the order of the entries. Nothing here touches the disk; whoever runs the
//! plan does.

use vstd::prelude::*;
use crate::archive::{parent_of, path_parent, Archive, ArchiveEntry, EntryView};
use crate::error::{Error, ErrorView};
use crate::text::text_of;
use crate::traits::KotlinAny;

verus! {

/// What one step of an extraction creates.
#[derive(Debug, PartialEq, Eq)]
pub enum Action {
    /// The directory at the step's path, with every ancestor that is
    /// missing. A directory that is there already is left as it is.
    CreateDir,
    /// The file at the step's path, created or truncated, holding `data`.
    /// Before that, the directory `parent` with every ancestor that is
    /// missing, unless it is there already.
    WriteFile {
        /// The path without its last component.
        parent: Option<String>,
        /// The size that the entry's header declares.
        size: u64,
        /// The entry's bytes, decompressed.
        data: Vec<u8>,
    },
}

/// One step of an extraction: what to create for one entry.
#[derive(Debug, PartialEq, Eq)]
pub struct Step {
    /// The index of the entry that the step is for.
    pub index: usize,
    /// Where to create it: a relative path that stays below the output root.
    pub path: String,
    /// The entry's comment, if it has one.
    pub comment: Option<String>,
    /// What to create.
    pub action: Action,
}

/// An [`Action`] as mathematical values.
pub enum ActionView {
    CreateDir,
    WriteFile { parent: Option<Seq<char>>, size: u64, data: Seq<u8> },
}

/// A [`Step`] as mathematical values.
pub struct StepView {
    pub index: int,
    pub path: Seq<char>,
    pub comment: Option<Seq<char>>,
    pub action: ActionView,
}

impl View for Action {
    type V = ActionView;

    open spec fn view(&self) -> ActionView {
        match *self {
            Action::CreateDir => ActionView::CreateDir,
            Action::WriteFile { parent, size, data } => ActionView::WriteFile {
                parent: text_of(parent),
                size,
                data: data@,
            },
        }
    }
}

impl View for Step {
    type V = StepView;

    open spec fn view(&self) -> StepView {
        StepView {
            index: self.index as int,
            path: self.path@,
            comment: text_of(self.comment),
            action: self.action@,
        }
    }
}

/// The comment that a step carries: the entry's, unless that is empty.
pub open spec fn noted(comment: Seq<char>) -> Option<Seq<char>> {
    if comment.len() > 0 {
        Some(comment)
    } else {
        None
    }
}

/// The step that creates the directory `path` for entry `index`.
pub open spec fn dir_step(index: int, path: Seq<char>, comment: Seq<char>) -> StepView {
    StepView { index, path, comment: noted(comment), action: ActionView::CreateDir }
}

/// The step that writes `data` to the file `path` for entry `index`, below
/// the directory `parent`.
pub open spec fn file_step(
    index: int,
    path: Seq<char>,
    comment: Seq<char>,
    parent: Option<Seq<char>>,
    size: u64,
    data: Seq<u8>,
) -> StepView {
    StepView {
        index,
        path,
        comment: noted(comment),
        action: ActionView::WriteFile { parent, size, data },
    }
}

/// Whether `comment` holds any text.
fn has_text(comment: &String) -> (kept: bool)
    ensures
        kept == (comment@.len() > 0),
{
    !comment.as_str().is_empty()
}

impl Step {
    /// The step that creates the directory `path` for entry `index`. It
    /// carries `comment` unless that is empty.
    pub fn create_dir(index: usize, path: String, comment: String) -> (step: Step)
        ensures
            step@ == dir_step(index as int, path@, comment@),
    {
        Step { index, path, comment: comment.take_if(has_text), action: Action::CreateDir }
    }

    /// The step that writes `data` to the file `path` for entry `index`,
    /// below the directory `parent`. It carries `comment` unless that is
    /// empty.
    pub fn write_file(
        index: usize,
        path: String,
        comment: String,
        parent: Option<String>,
        size: u64,
        data: Vec<u8>,
    ) -> (step: Step)
        ensures
            step@ == file_step(index as int, path@, comment@, text_of(parent), size, data@),
    {
        Step {
            index,
            path,
            comment: comment.take_if(has_text),
            action: Action::WriteFile { parent, size, data },
        }
    }
}

/// What an entry asks for, going by its header alone.
#[derive(Debug, Clone, Copy, PartialEq, Eq, Structural)]
pub enum EntryKind {
    /// Its name cannot be made a path below the output root: it is passed
    /// over, and that is no error.
    Skipped,
    /// A directory to create.
    Directory,
    /// A file to write.
    File,
}

/// What an entry with or without a safe path, that is or is not a
/// directory, asks for.
pub open spec fn entry_kind(has_path: bool, is_dir: bool) -> EntryKind {
    if !has_path {
        EntryKind::Skipped
    } else if is_dir {
        EntryKind::Directory
    } else {
        EntryKind::File
    }
}

impl ArchiveEntry {
    /// What this entry asks for.
    pub fn kind(&self) -> (kind: EntryKind)
        ensures
            kind == entry_kind(self.path is Some, self.is_dir),
    {
        if self.path.is_none() {
            EntryKind::Skipped
        } else if self.is_dir {
            EntryKind::Directory
        } else {
            EntryKind::File
        }
    }
}

/// What becomes of one entry.
pub enum Outcome {
    /// Nothing is done for it.
    Skip,
    /// This step is done for it.
    Do(StepView),
    /// The extraction ends here with this error.
    Fail(ErrorView),
}

/// What becomes of entry `index` of the archive named `archive_name`. An
/// entry that cannot be opened ends the extraction. One without a safe path
/// is passed over. A directory is created. A file is written with the
/// entry's bytes, and where those cannot be read the extraction ends.
pub open spec fn entry_outcome(index: int, entry: EntryView, archive_name: Seq<char>) -> Outcome {
    if !entry.readable {
        Outcome::Fail(ErrorView::MalformedArchive)
    } else {
        match entry.path {
            None => Outcome::Skip,
            Some(path) => if entry.is_dir {
                Outcome::Do(dir_step(index, path, entry.comment))
            } else {
                match entry.data {
                    Some(data) => Outcome::Do(
                        file_step(index, path, entry.comment, parent_of(path), entry.size, data),
                    ),
                    None => Outcome::Fail(ErrorView::ExtractionIOFailure { name: archive_name }),
                }
            },
        }
    }
}

/// A planned extraction as mathematical values.
pub struct PlanView {
    /// The steps, in the order in which they are to be done.
    pub steps: Seq<StepView>,
    /// Why the extraction ends after those steps, if it fails.
    pub failure: Option<ErrorView>,
}

/// The extraction of `entries`: the steps of the entries in the order of
/// their indices, up to the first entry at which the extraction fails.
pub open spec fn plan_of(entries: Seq<EntryView>, archive_name: Seq<char>) -> PlanView
    decreases entries.len(),
{
    if entries.len() == 0 {
        PlanView { steps: Seq::empty(), failure: None }
    } else {
        let before = plan_of(entries.drop_last(), archive_name);
        if before.failure is Some {
            before
        } else {
            match entry_outcome(entries.len() - 1, entries.last(), archive_name) {
                Outcome::Skip => before,
                Outcome::Do(step) => PlanView { steps: before.steps.push(step), failure: None },
                Outcome::Fail(error) => PlanView { steps: before.steps, failure: Some(error) },
            }
        }
    }
}

/// The steps as mathematical values.
pub open spec fn steps_view(steps: Seq<Step>) -> Seq<StepView> {
    steps.map_values(|step: Step| step@)
}

/// A planned extraction. The steps are to be done in their order. Where
/// `failure` holds an error the extraction has failed once they are done;
/// what they created stays.
#[derive(Debug, PartialEq, Eq)]
pub struct Extraction {
    /// What to create, in this order.
    pub steps: Vec<Step>,
    /// Why the extraction fails after those steps, if it does.
    pub failure: Option<Error>,
}

impl View for Extraction {
    type V = PlanView;

    open spec fn view(&self) -> PlanView {
        PlanView {
            steps: steps_view(self.steps@),
            failure: match self.failure {
                Some(error) => Some(error@),
                None => None,
            },
        }
    }
}

/// Plans the extraction of every entry of `archive`, in the order of their
/// indices. `archive_name` is the name that a failure reports.
///
/// An entry whose name cannot be made a path below the output root is passed
/// over. A directory entry gives a step that creates the directory. Any
/// other entry gives a step that writes its bytes, unchanged, to a file below
/// its parent directory. The first entry that cannot be opened, or whose
/// bytes cannot be read, ends the plan: the steps of the entries before it
/// stay, and `failure` says why.
pub fn extract(archive: &mut Archive, archive_name: &str) -> (plan: Extraction)
    ensures
        final(archive)@ == old(archive)@,
        plan@ == plan_of(old(archive)@, archive_name@),
{
    let ghost entries = archive@;
    let count = archive.len();
    let mut steps: Vec<Step> = Vec::new();
    let mut failure: Option<Error> = None;
    let mut index: usize = 0;
    proof {
        assert(entries.take(0) =~= Seq::<EntryView>::empty());
        assert(steps_view(steps@) =~= Seq::<StepView>::empty());
    }
    while index < count && failure.is_none()
        invariant
            archive@ == entries,
            count == entries.len(),
            index <= count,
            failure is Some ==> index == count,
            (Extraction { steps, failure })@ == plan_of(
                if failure is Some {
                    entries
                } else {
                    entries.take(index as int)
                },
                archive_name@,
            ),
        decreases count - index,
    {
        let ghost done = entries.take(index as int);
        let ghost next = entries.take(index + 1);
        let ghost before = steps_view(steps@);
        proof {
            assert(next.drop_last() =~= done);
            assert(next.last() == entries[index as int]);
        }
        let found = archive.entry(index);
        match found {
            Err(error) => {
                failure = Some(error);
            },
            Ok(entry) => {
                match entry.kind() {
                    EntryKind::Skipped => {},
                    EntryKind::Directory => {
                        let ArchiveEntry { index: _, path, is_dir: _, size: _, comment } = entry;
                        let step = Step::create_dir(index, path.unwrap(), comment);
                        steps.push(step);
                        assert(steps_view(steps@) =~= before.push(step@));
                    },
                    EntryKind::File => {
                        let ArchiveEntry { index: _, path, is_dir: _, size, comment } = entry;
                        let path = path.unwrap();
                        match archive.read(index) {
                            Some(data) => {
                                let parent = path_parent(path.as_str());
                                let step = Step::write_file(index, path, comment, parent, size, data);
                                steps.push(step);
                                assert(steps_view(steps@) =~= before.push(step@));
                            },
                            None => {
                                failure = Some(
                                    Error::ExtractionIOFailure {
                                        name: String::from_str(archive_name),
                                    },
                                );
                            },
                        }
                    },
                }
            },
        }
        if failure.is_some() {
            proof {
                lemma_failure_stays(entries, index + 1, archive_name@);
            }
            index = count;
        } else {
            index = index + 1;
        }
    }
    assert(failure is None ==> entries.take(index as int) =~= entries);
    Extraction { steps, failure }
}

/// Once the extraction of the first `end` entries has failed, the entries
/// after them change nothing.
pub proof fn lemma_failure_stays(entries: Seq<EntryView>, end: int, archive_name: Seq<char>)
    requires
        0 <= end <= entries.len(),
        plan_of(entries.take(end), archive_name).failure is Some,
    ensures
        plan_of(entries, archive_name) == plan_of(entries.take(end), archive_name),
    decreases entries.len() - end,
{
    if end < entries.len() {
        let front = entries.drop_last();
        assert(front.take(end) =~= entries.take(end));
        lemma_failure_stays(front, end, archive_name);
    } else {
        assert(entries.take(end) =~= entries);
    }
}

/// Whether `step` is what the entry that it names asks for.
pub open spec fn is_outcome_of(step: StepView, entries: Seq<EntryView>, archive_name: Seq<char>) -> bool {
    0 <= step.index < entries.len() && entry_outcome(
        step.index,
        entries[step.index],
        archive_name,
    ) == Outcome::Do(step)
}

/// Every step of an extraction is what the entry that it names asks for,
/// and the steps name their entries in increasing order of index.
pub proof fn lemma_steps_follow_entries(entries: Seq<EntryView>, archive_name: Seq<char>)
    ensures
        forall|k: int|
            0 <= k < plan_of(entries, archive_name).steps.len() ==> is_outcome_of(
                #[trigger] plan_of(entries, archive_name).steps[k],
                entries,
                archive_name,
            ),
        forall|j: int, k: int|
            0 <= j < k < plan_of(entries, archive_name).steps.len() ==> (#[trigger] plan_of(
                entries,
                archive_name,
            ).steps[j]).index < (#[trigger] plan_of(entries, archive_name).steps[k]).index,
    decreases entries.len(),
{
    if entries.len() > 0 {
        let front = entries.drop_last();
        lemma_steps_follow_entries(front, archive_name);
        let before = plan_of(front, archive_name).steps;
        let steps = plan_of(entries, archive_name).steps;
        assert forall|k: int| 0 <= k < steps.len() implies is_outcome_of(
            #[trigger] steps[k],
            entries,
            archive_name,
        ) by {
            if k < before.len() {
                assert(steps[k] == before[k]);
                assert(is_outcome_of(before[k], front, archive_name));
                assert(front[before[k].index] == entries[before[k].index]);
            }
        }
        assert forall|j: int, k: int| 0 <= j < k < steps.len() implies (#[trigger] steps[j]).index
            < (#[trigger] steps[k]).index by {
            assert(steps[j] == before[j]);
            assert(is_outcome_of(before[j], front, archive_name));
            if k < before.len() {
                assert(steps[k] == before[k]);
            }
        }
    }
}

/// No step leaves the output root: the path of every step is the safe path
/// of the entry that it names, and an entry whose name has no safe path has
/// no step.
pub proof fn lemma_steps_stay_below_root(entries: Seq<EntryView>, archive_name: Seq<char>)
    ensures
        forall|k: int|
            0 <= k < plan_of(entries, archive_name).steps.len() ==> {
                let step = #[trigger] plan_of(entries, archive_name).steps[k];
                0 <= step.index < entries.len() && entries[step.index].path == Some(step.path)
            },
        forall|i: int, k: int|
            0 <= i < entries.len() && (#[trigger] entries[i]).path is None && 0 <= k < plan_of(
                entries,
                archive_name,
            ).steps.len() ==> (#[trigger] plan_of(entries, archive_name).steps[k]).index != i,
{
    lemma_steps_follow_entries(entries, archive_name);
    let steps = plan_of(entries, archive_name).steps;
    assert forall|k: int| 0 <= k < steps.len() implies {
        let step = #[trigger] steps[k];
        0 <= step.index < entries.len() && entries[step.index].path == Some(step.path)
    } by {
        assert(is_outcome_of(steps[k], entries, archive_name));
    }
    assert forall|i: int, k: int|
        0 <= i < entries.len() && (#[trigger] entries[i]).path is None && 0 <= k
            < steps.len() implies (#[trigger] steps[k]).index != i by {
        assert(is_outcome_of(steps[k], entries, archive_name));
    }
}

/// A step that writes a file writes the bytes of its entry, unchanged, and
/// a step that creates a directory is for a directory entry.
pub proof fn lemma_steps_keep_entry_bytes(entries: Seq<EntryView>, archive_name: Seq<char>)
    ensures
        forall|k: int|
            0 <= k < plan_of(entries, archive_name).steps.len() ==> {
                let step = #[trigger] plan_of(entries, archive_name).steps[k];
                match step.action {
                    ActionView::WriteFile { parent, size, data } => !entries[step.index].is_dir
                        && entries[step.index].data == Some(data) && parent == parent_of(step.path)
                        && size == entries[step.index].size,
                    ActionView::CreateDir => entries[step.index].is_dir,
                }
            },
{
    lemma_steps_follow_entries(entries, archive_name);
    let steps = plan_of(entries, archive_name).steps;
    assert forall|k: int| 0 <= k < steps.len() implies {
        let step = #[trigger] steps[k];
        match step.action {
            ActionView::WriteFile { parent, size, data } => !entries[step.index].is_dir
                && entries[step.index].data == Some(data) && parent == parent_of(step.path) && size
                == entries[step.index].size,
            ActionView::CreateDir => entries[step.index].is_dir,
        }
    } by {
        assert(is_outcome_of(steps[k], entries, archive_name));
    }
}

/// An extraction that does not fail leaves no entry out but those without a
/// safe path: every other entry has its step.
pub proof fn lemma_every_entry_has_its_step(entries: Seq<EntryView>, archive_name: Seq<char>)
    requires
        plan_of(entries, archive_name).failure is None,
    ensures
        forall|i: int|
            0 <= i < entries.len() ==> match entry_outcome(i, #[trigger] entries[i], archive_name) {
                Outcome::Skip => true,
                Outcome::Do(step) => plan_of(entries, archive_name).steps.contains(step),
                Outcome::Fail(_) => false,
            },
    decreases entries.len(),
{
    if entries.len() > 0 {
        let front = entries.drop_last();
        lemma_every_entry_has_its_step(front, archive_name);
        let before = plan_of(front, archive_name).steps;
        let steps = plan_of(entries, archive_name).steps;
        assert forall|i: int| 0 <= i < entries.len() implies match entry_outcome(
            i,
            #[trigger] entries[i],
            archive_name,
        ) {
            Outcome::Skip => true,
            Outcome::Do(step) => steps.contains(step),
            Outcome::Fail(_) => false,
        } by {
            if i < front.len() {
                assert(front[i] == entries[i]);
                match entry_outcome(i, entries[i], archive_name) {
                    Outcome::Do(step) => {
                        let k = choose|k: int| 0 <= k < before.len() && before[k] == step;
                        assert(steps[k] == step);
                    },
                    _ => {},
                }
            } else {
                match entry_outcome(i, entries[i], archive_name) {
                    Outcome::Do(step) => {
                        assert(steps[steps.len() - 1] == step);
                    },
                    _ => {},
                }
            }
        }
    }
}

/// An extraction that fails does so at the first entry that cannot be
/// opened or whose bytes cannot be read, with that entry's error.
pub proof fn lemma_failure_is_first(entries: Seq<EntryView>, archive_name: Seq<char>)
    requires
        plan_of(entries, archive_name).failure is Some,
    ensures
        exists|i: int|
            0 <= i < entries.len() && entry_outcome(i, #[trigger] entries[i], archive_name)
                == Outcome::Fail(plan_of(entries, archive_name).failure->0) && plan_of(
                entries.take(i),
                archive_name,
            ).failure is None && plan_of(entries.take(i), archive_name).steps == plan_of(
                entries,
                archive_name,
            ).steps,
    decreases entries.len(),
{
    let front = entries.drop_last();
    if plan_of(front, archive_name).failure is Some {
        lemma_failure_is_first(front, archive_name);
        let i = choose|i: int|
            0 <= i < front.len() && entry_outcome(i, #[trigger] front[i], archive_name)
                == Outcome::Fail(plan_of(front, archive_name).failure->0) && plan_of(
                front.take(i),
                archive_name,
            ).failure is None && plan_of(front.take(i), archive_name).steps == plan_of(
                front,
                archive_name,
            ).steps;
        assert(front.take(i) =~= entries.take(i));
        assert(front[i] == entries[i]);
    } else {
        let i = entries.len() - 1;
        assert(entries.take(i) =~= front);
        assert(entries[i] == entries.last());
    }
}

} // verus!
