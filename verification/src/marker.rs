//! The check that an archive holds a project file: an entry whose name ends
//! with one of the project file names that were asked for.

use vstd::prelude::*;
use vstd::utf8::encode_utf8;
use crate::text::{text_of, texts_of};

verus! {

/// Whether `name` ends with `marker`, byte for byte in their UTF-8 encoding.
/// Nothing asks that the match begins at a path separator.
pub open spec fn ends_with(name: Seq<char>, marker: Seq<char>) -> bool {
    encode_utf8(marker).is_suffix_of(encode_utf8(name))
}

/// Whether `name` ends with at least one of `markers`.
pub open spec fn ends_with_any(name: Seq<char>, markers: Seq<Seq<char>>) -> bool {
    exists|k: int| 0 <= k < markers.len() && ends_with(name, #[trigger] markers[k])
}

/// Whether an entry of this name is a project file: the name is text and ends
/// with one of `markers`.
pub open spec fn is_project_file(name: Option<Seq<char>>, markers: Seq<Seq<char>>) -> bool {
    name matches Some(text) && ends_with_any(text, markers)
}

/// No entry before index `end` is a project file.
pub open spec fn no_project_file_before(
    names: Seq<Option<Seq<char>>>,
    markers: Seq<Seq<char>>,
    end: int,
) -> bool {
    forall|j: int| 0 <= j < end && j < names.len() ==> !is_project_file(#[trigger] names[j], markers)
}

/// The index of the first entry that is a project file, if there is one.
pub open spec fn first_project_file(names: Seq<Option<Seq<char>>>, markers: Seq<Seq<char>>) -> Option<
    int,
>
    decreases names.len(),
{
    if names.len() == 0 {
        None
    } else {
        match first_project_file(names.drop_last(), markers) {
            Some(index) => Some(index),
            None => if is_project_file(names.last(), markers) {
                Some(names.len() - 1)
            } else {
                None
            },
        }
    }
}

/// What `first_project_file` returns is the least index of a project file,
/// and it is `None` exactly when no entry is one.
pub proof fn lemma_first_project_file(names: Seq<Option<Seq<char>>>, markers: Seq<Seq<char>>)
    ensures
        match first_project_file(names, markers) {
            Some(index) => 0 <= index < names.len() && is_project_file(names[index], markers)
                && no_project_file_before(names, markers, index),
            None => no_project_file_before(names, markers, names.len() as int),
        },
    decreases names.len(),
{
    if names.len() > 0 {
        lemma_first_project_file(names.drop_last(), markers);
        let front = names.drop_last();
        assert forall|j: int| 0 <= j < front.len() implies front[j] == names[j] by {}
    }
}

/// Whether the bytes of `name` end with the bytes of `marker`.
pub fn bytes_end_with(name: &[u8], marker: &[u8]) -> (ends: bool)
    ensures
        ends == marker@.is_suffix_of(name@),
{
    let name_len = name.len();
    let marker_len = marker.len();
    if marker_len > name_len {
        return false;
    }
    let start = name_len - marker_len;
    let mut i: usize = 0;
    while i < marker_len
        invariant
            name_len == name@.len(),
            marker_len == marker@.len(),
            start + marker_len == name_len,
            i <= marker_len,
            forall|j: int| 0 <= j < i ==> marker@[j] == name@[start + j],
        decreases marker_len - i,
    {
        if marker[i] != name[start + i] {
            assert(name@.subrange(start as int, name_len as int)[i as int] == name@[start + i]);
            return false;
        }
        i = i + 1;
    }
    assert(marker@ =~= name@.subrange(start as int, name_len as int));
    true
}

/// Whether `name` ends with `marker`.
pub fn name_ends_with(name: &str, marker: &str) -> (ends: bool)
    ensures
        ends == ends_with(name@, marker@),
{
    bytes_end_with(name.as_bytes(), marker.as_bytes())
}

/// Whether `name` ends with at least one of `markers`.
pub fn name_ends_with_any(name: &str, markers: &Vec<String>) -> (ends: bool)
    ensures
        ends == ends_with_any(name@, markers.deep_view()),
{
    let mut k: usize = 0;
    while k < markers.len()
        invariant
            k <= markers.len(),
            forall|j: int| 0 <= j < k ==> !ends_with(name@, #[trigger] markers.deep_view()[j]),
        decreases markers.len() - k,
    {
        assert(markers.deep_view()[k as int] == markers[k as int]@);
        if name_ends_with(name, markers[k].as_str()) {
            return true;
        }
        k = k + 1;
    }
    assert(markers.deep_view().len() == markers.len());
    false
}

/// Looks for the first entry whose name ends with one of `markers` and
/// returns its index. `None` says that no entry name ends with any of them.
/// This decides only whether the archive is taken; it leaves no entry out of
/// the extraction.
pub fn find_project_file(names: &Vec<Option<String>>, markers: &Vec<String>) -> (found: Option<usize>)
    ensures
        match found {
            Some(index) => first_project_file(texts_of(names@), markers.deep_view()) == Some(
                index as int,
            ),
            None => first_project_file(texts_of(names@), markers.deep_view()) is None,
        },
        match found {
            Some(index) => index < names.len() && is_project_file(
                text_of(names[index as int]),
                markers.deep_view(),
            ) && no_project_file_before(texts_of(names@), markers.deep_view(), index as int),
            None => no_project_file_before(
                texts_of(names@),
                markers.deep_view(),
                names.len() as int,
            ),
        },
{
    let ghost all = texts_of(names@);
    let ghost wanted = markers.deep_view();
    let mut i: usize = 0;
    while i < names.len()
        invariant
            i <= names.len(),
            all == texts_of(names@),
            wanted == markers.deep_view(),
            no_project_file_before(all, wanted, i as int),
        decreases names.len() - i,
    {
        let hit = match &names[i] {
            Some(text) => name_ends_with_any(text.as_str(), markers),
            None => false,
        };
        assert(hit == is_project_file(all[i as int], wanted));
        if hit {
            proof {
                lemma_first_at(all, wanted, i as int);
            }
            return Some(i);
        }
        i = i + 1;
    }
    proof {
        lemma_first_project_file(all, wanted);
    }
    None
}

/// An index that holds a project file and has none before it is the one that
/// `first_project_file` returns.
pub proof fn lemma_first_at(names: Seq<Option<Seq<char>>>, markers: Seq<Seq<char>>, index: int)
    requires
        0 <= index < names.len(),
        is_project_file(names[index], markers),
        no_project_file_before(names, markers, index),
    ensures
        first_project_file(names, markers) == Some(index),
{
    lemma_first_project_file(names, markers);
}

} // verus!
