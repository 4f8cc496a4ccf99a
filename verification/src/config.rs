//! The parameters of one run, and the search for the archive among the
//! candidate input names.

use vstd::prelude::*;
use crate::error::{Error, ErrorView};
use crate::text::text_of;

verus! {

/// The suffix with which the input name is tried a second time.
pub open spec fn zip_suffix() -> Seq<char> {
    seq!['.', 'z', 'i', 'p']
}

/// The project file names that are looked for when none are given.
pub open spec fn default_markers() -> Seq<Seq<char>> {
    seq!["build.gradle"@, "build.gradle.kts"@, "pom.xml"@]
}

/// The project file names that are looked for when none are given: the build
/// descriptors of Gradle, of Gradle with Kotlin, and of Maven.
pub fn default_project_files() -> (names: Vec<String>)
    ensures
        names.deep_view() == default_markers(),
{
    let mut names: Vec<String> = Vec::new();
    names.push(String::from_str("build.gradle"));
    names.push(String::from_str("build.gradle.kts"));
    names.push(String::from_str("pom.xml"));
    assert(names.deep_view() =~= default_markers());
    names
}

/// The paths under which an input name is looked for, in the order in which
/// they are tried: the name as given, then the name with `.zip` behind it.
pub fn candidate_names(input: &str) -> (names: Vec<String>)
    ensures
        names.deep_view() == seq![input@, input@ + zip_suffix()],
{
    proof {
        reveal_strlit(".zip");
    }
    let mut names: Vec<String> = Vec::new();
    names.push(String::from_str(input));
    names.push(String::from_str(input).concat(".zip"));
    assert(".zip"@ =~= zip_suffix());
    assert(names.deep_view() =~= seq![input@, input@ + zip_suffix()]);
    names
}

/// Where the search for the archive stands.
#[derive(Debug, Clone, Copy, PartialEq, Eq, Structural)]
pub enum Search {
    /// The candidate at this index is to be opened next.
    Probe(usize),
    /// The candidate at this index opened as a regular file.
    Found(usize),
    /// No candidate opened as a regular file.
    NotFound,
}

/// Where the search stands once the candidate at `probed`, one of `count`,
/// has or has not opened as a regular file.
pub open spec fn search_step(count: nat, probed: nat, is_regular_file: bool) -> Search {
    if probed >= count {
        Search::NotFound
    } else if is_regular_file {
        Search::Found(probed as usize)
    } else if probed + 1 < count {
        Search::Probe((probed + 1) as usize)
    } else {
        Search::NotFound
    }
}

/// Whether the candidate at `index` opened as a regular file. `regular[i]`
/// says so of candidate `i`; a candidate that it does not reach did not.
pub open spec fn is_regular(regular: Seq<bool>, index: int) -> bool {
    0 <= index < regular.len() && regular[index]
}

/// No candidate before index `end` opened as a regular file.
pub open spec fn no_regular_before(regular: Seq<bool>, end: int) -> bool {
    forall|j: int| 0 <= j < end ==> !is_regular(regular, j)
}

/// The resolved parameters of one run. They are fixed once the run starts.
/// There is always at least one candidate input name and at least one project
/// file name.
#[derive(Debug)]
pub struct InvocationConfig {
    input_names: Vec<String>,
    output_dir: Option<String>,
    project_files: Vec<String>,
    open_with: Option<String>,
    verbose: bool,
    keep_source: bool,
}

impl InvocationConfig {
    #[verifier::type_invariant]
    spec fn well_formed(&self) -> bool {
        self.input_names.len() >= 1 && self.project_files.len() >= 1
    }

    /// The candidate input names, in the order in which they are tried.
    pub closed spec fn candidates(&self) -> Seq<Seq<char>> {
        self.input_names.deep_view()
    }

    /// The project file names that the archive is checked for.
    pub closed spec fn markers(&self) -> Seq<Seq<char>> {
        self.project_files.deep_view()
    }

    /// The output directory that was asked for.
    pub closed spec fn output(&self) -> Option<Seq<char>> {
        text_of(self.output_dir)
    }

    /// The command that was asked for to open the project file with.
    pub closed spec fn command(&self) -> Option<Seq<char>> {
        text_of(self.open_with)
    }

    /// Whether each step is to be printed.
    pub closed spec fn chatty(&self) -> bool {
        self.verbose
    }

    /// Whether the archive is to be kept.
    pub closed spec fn keeps_source(&self) -> bool {
        self.keep_source
    }

    /// The parameters of a run on the input name `input`. The candidates are
    /// `input` and `input` with `.zip` behind it. Where `project_files` is
    /// empty the default project file names take its place.
    pub fn new(
        input: &str,
        output_dir: Option<String>,
        project_files: Vec<String>,
        open_with: Option<String>,
        verbose: bool,
        keep_source: bool,
    ) -> (config: InvocationConfig)
        ensures
            config.candidates() == seq![input@, input@ + zip_suffix()],
            config.markers() == (if project_files.len() == 0 {
                default_markers()
            } else {
                project_files.deep_view()
            }),
            config.output() == text_of(output_dir),
            config.command() == text_of(open_with),
            config.chatty() == verbose,
            config.keeps_source() == keep_source,
    {
        let input_names = candidate_names(input);
        assert(input_names.len() == input_names.deep_view().len());
        let project_files = if project_files.len() == 0 {
            let defaults = default_project_files();
            assert(defaults.len() == defaults.deep_view().len());
            defaults
        } else {
            project_files
        };
        InvocationConfig { input_names, output_dir, project_files, open_with, verbose, keep_source }
    }

    /// The candidate input names, in the order in which they are tried.
    pub fn input_names(&self) -> (names: &Vec<String>)
        ensures
            names.deep_view() == self.candidates(),
            names.len() >= 1,
    {
        proof {
            use_type_invariant(self);
        }
        &self.input_names
    }

    /// The project file names that the archive is checked for.
    pub fn project_files(&self) -> (names: &Vec<String>)
        ensures
            names.deep_view() == self.markers(),
            names.len() >= 1,
    {
        proof {
            use_type_invariant(self);
        }
        &self.project_files
    }

    /// The output directory that was asked for, if any.
    pub fn output_dir(&self) -> (dir: &Option<String>)
        ensures
            text_of(*dir) == self.output(),
    {
        &self.output_dir
    }

    /// The command to open the project file with, if one was asked for.
    pub fn open_with(&self) -> (command: &Option<String>)
        ensures
            text_of(*command) == self.command(),
    {
        &self.open_with
    }

    /// Whether each step is to be printed.
    pub fn verbose(&self) -> (verbose: bool)
        ensures
            verbose == self.chatty(),
    {
        self.verbose
    }

    /// Whether the archive is to be kept.
    pub fn keep_source(&self) -> (keep: bool)
        ensures
            keep == self.keeps_source(),
    {
        self.keep_source
    }

    /// The search before anything was opened: the first candidate is next.
    pub fn begin_search(&self) -> (search: Search)
        ensures
            search == Search::Probe(0),
    {
        Search::Probe(0)
    }

    /// The search after the candidate at `probed` was opened. It is found
    /// when it opened as a regular file; else the next candidate is tried,
    /// and when none is left the search has failed.
    pub fn advance_search(&self, probed: usize, is_regular_file: bool) -> (search: Search)
        ensures
            search == search_step(self.candidates().len(), probed as nat, is_regular_file),
    {
        let count = self.input_names.len();
        assert(count == self.input_names.deep_view().len());
        if probed >= count {
            Search::NotFound
        } else if is_regular_file {
            Search::Found(probed)
        } else if probed + 1 < count {
            Search::Probe(probed + 1)
        } else {
            Search::NotFound
        }
    }

    /// The error of a search that failed: it names the first candidate.
    pub fn not_found(&self) -> (error: Error)
        ensures
            error@ == (ErrorView::InputNotFound { name: self.candidates()[0] }),
    {
        proof {
            use_type_invariant(self);
        }
        Error::InputNotFound { name: self.input_names[0].clone() }
    }

    /// Runs the whole search over what opening each candidate gave:
    /// `regular[i]` says whether candidate `i` opened as a regular file, and
    /// a candidate that `regular` does not reach counts as one that did not.
    /// The result is the index of the first candidate that did. When none
    /// did, it is `InputNotFound` with the first candidate's name.
    pub fn locate(&self, regular: &Vec<bool>) -> (found: Result<usize, Error>)
        ensures
            match found {
                Ok(index) => index < self.candidates().len() && is_regular(regular@, index as int)
                    && no_regular_before(regular@, index as int),
                Err(error) => no_regular_before(regular@, self.candidates().len() as int)
                    && error@ == (ErrorView::InputNotFound {
                    name: self.candidates()[0],
                }),
            },
    {
        proof {
            use_type_invariant(self);
            assert(self.candidates().len() == self.input_names.len());
        }
        let mut search = self.begin_search();
        let count = self.input_names.len();
        loop
            invariant
                count == self.candidates().len(),
                match search {
                    Search::Probe(i) => i < count && no_regular_before(regular@, i as int),
                    Search::Found(i) => i < count && is_regular(regular@, i as int)
                        && no_regular_before(regular@, i as int),
                    Search::NotFound => no_regular_before(regular@, count as int),
                },
            decreases
                (match search {
                    Search::Probe(i) => count - i,
                    _ => 0,
                }),
        {
            match search {
                Search::Probe(index) => {
                    let opened = index < regular.len() && regular[index];
                    search = self.advance_search(index, opened);
                },
                Search::Found(index) => {
                    return Ok(index);
                },
                Search::NotFound => {
                    return Err(self.not_found());
                },
            }
        }
    }
}

} // verus!
