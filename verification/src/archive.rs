//! A zip archive held in memory, read through the `zip` crate. Nothing here
//! is proved of that crate: the contracts below say what its reader is taken
//! to do, and the rest of the library is proved from them.

use vstd::prelude::*;
use crate::error::{Error, ErrorView};
use crate::text::{text_of, texts_of};

verus! {

/// `zip::ZipArchive`, the reader of a zip container. Nothing is known of
/// what is inside a value of it but what the contracts below say.
#[verifier::external_type_specification]
#[verifier::external_body]
#[verifier::reject_recursive_types(R)]
pub struct ExZipArchive<R>(zip::ZipArchive<R>);

/// `std::io::Cursor`, through which the reader reads bytes held in memory.
#[verifier::external_type_specification]
#[verifier::external_body]
#[verifier::reject_recursive_types(T)]
pub struct ExCursor<T>(std::io::Cursor<T>);

/// `zip::result::ZipError`. It is carried from the reader to the place
/// where it becomes an [`Error`], and never looked into.
#[verifier::external_type_specification]
#[verifier::external_body]
pub struct ExZipError(zip::result::ZipError);

/// What the reader reports of one entry of an archive.
pub struct EntryView {
    /// The entry's name as text, the way the listing of names gives it;
    /// `None` where the name cannot be read as text.
    pub name: Option<Seq<char>>,
    /// Whether the entry can be opened for reading.
    pub readable: bool,
    /// The entry's name made safe: a relative path that stays below the
    /// directory it is resolved in. `None` where the name cannot be made so.
    pub path: Option<Seq<char>>,
    /// Whether the entry stands for a directory.
    pub is_dir: bool,
    /// The size of the entry's bytes, as its header declares it.
    pub size: u64,
    /// The entry's comment; empty where it has none.
    pub comment: Seq<char>,
    /// The entry's bytes, decompressed; `None` where reading them fails.
    pub data: Option<Seq<u8>>,
}

/// The entries of an opened archive, in the order of their indices: what
/// the reader answers when asked about each. Paths are spelled the way the
/// platform spells them that the library is built for.
pub uninterp spec fn entries_of(zip: zip::ZipArchive<std::io::Cursor<Vec<u8>>>) -> Seq<EntryView>;

/// The entries that `bytes` hold when read as a zip container; `None` where
/// they are no such container.
pub uninterp spec fn entries_in(bytes: Seq<u8>) -> Option<Seq<EntryView>>;

/// The path without its last component, on the platform that the library
/// is built for; `None` where the path has none to drop.
pub uninterp spec fn parent_of(path: Seq<char>) -> Option<Seq<char>>;

/// `zip::ZipArchive::new` on a `std::io::Cursor` over `bytes`. The contract
/// claims that whether the bytes open, and what entries the opened archive
/// reports, depends on the bytes alone.
#[verifier::external_body]
fn zip_open(bytes: Vec<u8>) -> (opened: Result<
    zip::ZipArchive<std::io::Cursor<Vec<u8>>>,
    zip::result::ZipError,
>)
    ensures
        match opened {
            Ok(zip) => entries_in(bytes@) == Some(entries_of(zip)),
            Err(_) => entries_in(bytes@) is None,
        },
{
    zip::ZipArchive::new(std::io::Cursor::new(bytes))
}

/// `zip::ZipArchive::len`. The contract claims that it is the number of
/// entries that the archive answers for.
#[verifier::external_body]
fn zip_len(zip: &zip::ZipArchive<std::io::Cursor<Vec<u8>>>) -> (count: usize)
    ensures
        count == entries_of(*zip).len(),
{
    zip.len()
}

/// `zip::ZipArchive::file_names`, collected. The contract claims that the
/// names come in the order of the entries' indices, one for each entry.
#[verifier::external_body]
fn zip_file_names(zip: &zip::ZipArchive<std::io::Cursor<Vec<u8>>>) -> (names: Vec<Option<String>>)
    ensures
        names.len() == entries_of(*zip).len(),
        forall|i: int|
            0 <= i < names.len() ==> text_of(#[trigger] names[i]) == entries_of(*zip)[i].name,
{
    let mut names = Vec::new();
    for name in zip.file_names() {
        match name {
            Ok(text) => names.push(Some(text.into_owned())),
            Err(_) => names.push(None),
        }
    }
    names
}

/// `zip::ZipArchive::by_index`, then `enclosed_name` of the opened entry,
/// as text. The contract claims that opening fails exactly for an index past
/// the end and for an entry that is not readable, that it leaves the
/// archive's entries as they were, and that the safe path depends on the
/// archive and the index alone.
#[verifier::external_body]
fn zip_enclosed_name(zip: &mut zip::ZipArchive<std::io::Cursor<Vec<u8>>>, index: usize) -> (found:
    Result<Option<String>, zip::result::ZipError>)
    ensures
        entries_of(*final(zip)) == entries_of(*old(zip)),
        match found {
            Ok(path) => index < entries_of(*old(zip)).len() && entries_of(
                *old(zip),
            )[index as int].readable && text_of(path) == entries_of(*old(zip))[index as int].path,
            Err(_) => index >= entries_of(*old(zip)).len() || !entries_of(
                *old(zip),
            )[index as int].readable,
        },
{
    let file = zip.by_index(index)?;
    match file.enclosed_name() {
        Some(path) => Ok(Some(path.to_string_lossy().into_owned())),
        None => Ok(None),
    }
}

/// `zip::ZipArchive::by_index`, then `is_dir` of the opened entry. The
/// contract claims of opening what it claims for `zip_enclosed_name`.
#[verifier::external_body]
fn zip_is_dir(zip: &mut zip::ZipArchive<std::io::Cursor<Vec<u8>>>, index: usize) -> (found: Result<
    bool,
    zip::result::ZipError,
>)
    ensures
        entries_of(*final(zip)) == entries_of(*old(zip)),
        match found {
            Ok(is_dir) => index < entries_of(*old(zip)).len() && entries_of(
                *old(zip),
            )[index as int].readable && is_dir == entries_of(*old(zip))[index as int].is_dir,
            Err(_) => index >= entries_of(*old(zip)).len() || !entries_of(
                *old(zip),
            )[index as int].readable,
        },
{
    let file = zip.by_index(index)?;
    Ok(file.is_dir())
}

/// `zip::ZipArchive::by_index`, then `size` of the opened entry. The
/// contract claims of opening what it claims for `zip_enclosed_name`.
#[verifier::external_body]
fn zip_size(zip: &mut zip::ZipArchive<std::io::Cursor<Vec<u8>>>, index: usize) -> (found: Result<
    u64,
    zip::result::ZipError,
>)
    ensures
        entries_of(*final(zip)) == entries_of(*old(zip)),
        match found {
            Ok(size) => index < entries_of(*old(zip)).len() && entries_of(
                *old(zip),
            )[index as int].readable && size == entries_of(*old(zip))[index as int].size,
            Err(_) => index >= entries_of(*old(zip)).len() || !entries_of(
                *old(zip),
            )[index as int].readable,
        },
{
    let file = zip.by_index(index)?;
    Ok(file.size())
}

/// `zip::ZipArchive::by_index`, then `comment` of the opened entry. The
/// contract claims of opening what it claims for `zip_enclosed_name`.
#[verifier::external_body]
fn zip_comment(zip: &mut zip::ZipArchive<std::io::Cursor<Vec<u8>>>, index: usize) -> (found: Result<
    String,
    zip::result::ZipError,
>)
    ensures
        entries_of(*final(zip)) == entries_of(*old(zip)),
        match found {
            Ok(comment) => index < entries_of(*old(zip)).len() && entries_of(
                *old(zip),
            )[index as int].readable && comment@ == entries_of(*old(zip))[index as int].comment,
            Err(_) => index >= entries_of(*old(zip)).len() || !entries_of(
                *old(zip),
            )[index as int].readable,
        },
{
    let file = zip.by_index(index)?;
    Ok(file.comment().to_owned())
}

/// `zip::ZipArchive::by_index`, then `std::io::Read::read_to_end` on the
/// opened entry. An error of either call comes back as the crate's error.
/// The contract claims that the bytes read, or that reading fails, depends
/// on the archive and the index alone.
#[verifier::external_body]
fn zip_read(zip: &mut zip::ZipArchive<std::io::Cursor<Vec<u8>>>, index: usize) -> (found: Result<
    Vec<u8>,
    zip::result::ZipError,
>)
    ensures
        entries_of(*final(zip)) == entries_of(*old(zip)),
        match found {
            Ok(data) => index < entries_of(*old(zip)).len() && entries_of(
                *old(zip),
            )[index as int].readable && entries_of(*old(zip))[index as int].data == Some(data@),
            Err(_) => index >= entries_of(*old(zip)).len() || !entries_of(
                *old(zip),
            )[index as int].readable || entries_of(*old(zip))[index as int].data is None,
        },
{
    let mut file = zip.by_index(index)?;
    let mut data = Vec::new();
    std::io::Read::read_to_end(&mut file, &mut data)?;
    Ok(data)
}

/// `std::path::Path::parent` of the path that `path` spells, as text. The
/// contract claims that the result depends on the path alone.
#[verifier::external_body]
pub(crate) fn path_parent(path: &str) -> (parent: Option<String>)
    ensures
        text_of(parent) == parent_of(path@),
{
    match std::path::Path::new(path).parent() {
        Some(parent) => Some(parent.to_string_lossy().into_owned()),
        None => None,
    }
}

/// What an entry's header says of it: all that is known before its bytes
/// are read.
#[derive(Debug, PartialEq, Eq)]
pub struct ArchiveEntry {
    /// The entry's index in the archive.
    pub index: usize,
    /// The entry's name as a relative path that stays below the directory it
    /// is resolved in; `None` where the name cannot be made so.
    pub path: Option<String>,
    /// Whether the entry stands for a directory.
    pub is_dir: bool,
    /// The size of the entry's bytes, as its header declares it.
    pub size: u64,
    /// The entry's comment; empty where it has none.
    pub comment: String,
}

impl ArchiveEntry {
    /// Whether this is what the archive reports of entry `index`, whose view
    /// is `entry`.
    pub open spec fn describes(&self, index: int, entry: EntryView) -> bool {
        &&& self.index == index
        &&& text_of(self.path) == entry.path
        &&& self.is_dir == entry.is_dir
        &&& self.size == entry.size
        &&& self.comment@ == entry.comment
    }
}

/// An opened archive. Its view is the sequence of its entries.
pub struct Archive {
    zip: zip::ZipArchive<std::io::Cursor<Vec<u8>>>,
}

impl View for Archive {
    type V = Seq<EntryView>;

    closed spec fn view(&self) -> Seq<EntryView> {
        entries_of(self.zip)
    }
}

impl Archive {
    /// Reads `bytes` as a zip container. They are `MalformedArchive` exactly
    /// when they are no such container.
    pub fn open(bytes: Vec<u8>) -> (opened: Result<Archive, Error>)
        ensures
            match opened {
                Ok(archive) => entries_in(bytes@) == Some(archive@),
                Err(error) => entries_in(bytes@) is None && error@ == ErrorView::MalformedArchive,
            },
    {
        match zip_open(bytes) {
            Ok(zip) => Ok(Archive { zip }),
            Err(_) => Err(Error::MalformedArchive),
        }
    }

    /// The number of entries.
    pub fn len(&self) -> (count: usize)
        ensures
            count == self@.len(),
    {
        zip_len(&self.zip)
    }

    /// The names of the entries, in the order of their indices.
    pub fn file_names(&self) -> (names: Vec<Option<String>>)
        ensures
            names.len() == self@.len(),
            texts_of(names@) == self@.map_values(|entry: EntryView| entry.name),
    {
        let names = zip_file_names(&self.zip);
        assert(texts_of(names@) =~= self@.map_values(|entry: EntryView| entry.name));
        names
    }

    /// Opens the entry at `index` and reads its header. This fails with
    /// `MalformedArchive` exactly when `index` is past the last entry or the
    /// entry cannot be opened.
    pub fn entry(&mut self, index: usize) -> (found: Result<ArchiveEntry, Error>)
        ensures
            final(self)@ == old(self)@,
            match found {
                Ok(entry) => index < old(self)@.len() && old(self)@[index as int].readable
                    && entry.describes(index as int, old(self)@[index as int]),
                Err(error) => (index >= old(self)@.len() || !old(self)@[index as int].readable)
                    && error@ == ErrorView::MalformedArchive,
            },
    {
        let path = match zip_enclosed_name(&mut self.zip, index) {
            Ok(path) => path,
            Err(_) => {
                return Err(Error::MalformedArchive);
            },
        };
        let is_dir = match zip_is_dir(&mut self.zip, index) {
            Ok(is_dir) => is_dir,
            Err(_) => {
                return Err(Error::MalformedArchive);
            },
        };
        let size = match zip_size(&mut self.zip, index) {
            Ok(size) => size,
            Err(_) => {
                return Err(Error::MalformedArchive);
            },
        };
        let comment = match zip_comment(&mut self.zip, index) {
            Ok(comment) => comment,
            Err(_) => {
                return Err(Error::MalformedArchive);
            },
        };
        Ok(ArchiveEntry { index, path, is_dir, size, comment })
    }

    /// Reads the bytes of the entry at `index`, decompressed. `None` says
    /// that `index` is past the last entry, that the entry cannot be opened,
    /// or that reading its bytes failed.
    pub fn read(&mut self, index: usize) -> (found: Option<Vec<u8>>)
        ensures
            final(self)@ == old(self)@,
            match found {
                Some(data) => index < old(self)@.len() && old(self)@[index as int].readable && old(
                    self,
                )@[index as int].data == Some(data@),
                None => index >= old(self)@.len() || !old(self)@[index as int].readable || old(
                    self,
                )@[index as int].data is None,
            },
    {
        match zip_read(&mut self.zip, index) {
            Ok(data) => Some(data),
            Err(_) => None,
        }
    }
}

} // verus!
