//! One run on the bytes of a located archive: open it, check it for a
//! project file, plan its extraction.

use vstd::prelude::*;
use crate::archive::{entries_in, Archive, EntryView};
use crate::config::InvocationConfig;
use crate::error::{Error, ErrorView};
use crate::extract::{extract, plan_of, Extraction, PlanView};
use crate::marker::{
    find_project_file, first_project_file, is_project_file, lemma_first_project_file,
};
use crate::text::{text_of, texts_of};

verus! {

/// The names of `entries`, in their order.
pub open spec fn entry_names(entries: Seq<EntryView>) -> Seq<Option<Seq<char>>> {
    entries.map_values(|entry: EntryView| entry.name)
}

/// A copy of `names`.
pub fn clone_names(names: &Vec<String>) -> (copy: Vec<String>)
    ensures
        copy.deep_view() == names.deep_view(),
{
    let mut copy: Vec<String> = Vec::new();
    let mut i: usize = 0;
    while i < names.len()
        invariant
            i <= names.len(),
            copy.len() == i,
            forall|j: int| 0 <= j < i ==> copy[j]@ == names[j]@,
        decreases names.len() - i,
    {
        copy.push(names[i].clone());
        i = i + 1;
    }
    assert(copy.deep_view() =~= names.deep_view());
    copy
}

/// What a run found in an archive that holds a project file.
#[derive(Debug, PartialEq, Eq)]
pub struct Unpacked {
    /// The name of the first entry that is a project file.
    pub project_file: String,
    /// The extraction of the whole archive.
    pub plan: Extraction,
}

/// What a run on `entries` gives, with the project file names `markers` and
/// the archive name `archive_name`: the name of the first project file and
/// the extraction of every entry, or no project file at all.
pub open spec fn unpacked(
    entries: Seq<EntryView>,
    markers: Seq<Seq<char>>,
    archive_name: Seq<char>,
) -> Result<(Seq<char>, PlanView), ErrorView> {
    match first_project_file(entry_names(entries), markers) {
        Some(index) => Ok((entries[index].name->0, plan_of(entries, archive_name))),
        None => Err(ErrorView::NoProjectFileFound { markers }),
    }
}

/// Runs on the bytes of the archive that was located.
///
/// Bytes that are no zip container are `MalformedArchive`. An archive none of
/// whose entry names ends with one of the project file names is
/// `NoProjectFileFound`, whatever its entries hold otherwise. Any other
/// archive gives the name of its first project file and the extraction of all
/// its entries, the project file or not; a failure of that extraction names
/// the first candidate input name.
pub fn unpack(config: &InvocationConfig, bytes: Vec<u8>) -> (outcome: Result<Unpacked, Error>)
    ensures
        match entries_in(bytes@) {
            None => outcome matches Err(error) && error@ == ErrorView::MalformedArchive,
            Some(entries) => match unpacked(entries, config.markers(), config.candidates()[0]) {
                Ok((name, plan)) => outcome matches Ok(found) && found.project_file@ == name
                    && found.plan@ == plan,
                Err(wanted) => outcome matches Err(error) && error@ == wanted,
            },
        },
{
    let mut archive = match Archive::open(bytes) {
        Ok(archive) => archive,
        Err(error) => {
            return Err(error);
        },
    };
    let names = archive.file_names();
    let markers = config.project_files();
    let archive_name = &config.input_names()[0];
    assert(archive_name@ == config.candidates()[0]);
    match find_project_file(&names, markers) {
        None => Err(Error::NoProjectFileFound { markers: clone_names(markers) }),
        Some(index) => {
            assert(texts_of(names@)[index as int] == text_of(names[index as int]));
            match &names[index] {
                Some(name) => {
                    let project_file = name.clone();
                    let plan = extract(&mut archive, archive_name.as_str());
                    Ok(Unpacked { project_file, plan })
                },
                None => unreached(),
            }
        },
    }
}

/// An archive is refused with `NoProjectFileFound` exactly when none of its
/// entry names ends with one of the project file names. Nothing else that
/// its entries hold has a say in that.
pub proof fn lemma_refused_without_project_file(
    entries: Seq<EntryView>,
    markers: Seq<Seq<char>>,
    archive_name: Seq<char>,
)
    ensures
        (forall|i: int|
            0 <= i < entries.len() ==> !is_project_file((#[trigger] entries[i]).name, markers))
            <==> unpacked(entries, markers, archive_name) == Err::<(Seq<char>, PlanView), ErrorView>(
            ErrorView::NoProjectFileFound { markers },
        ),
        unpacked(entries, markers, archive_name) is Err ==> unpacked(
            entries,
            markers,
            archive_name,
        ) == Err::<(Seq<char>, PlanView), ErrorView>(ErrorView::NoProjectFileFound { markers }),
{
    let names = entry_names(entries);
    lemma_first_project_file(names, markers);
    match first_project_file(names, markers) {
        Some(index) => {
            assert(names[index] == entries[index].name);
        },
        None => {
            assert forall|i: int| 0 <= i < entries.len() implies !is_project_file(
                (#[trigger] entries[i]).name,
                markers,
            ) by {
                assert(names[i] == entries[i].name);
            }
        },
    }
}

} // verus!
