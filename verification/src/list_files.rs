//! The files behind the game lists: where they stand, how they begin, and how the community list
//! is refreshed.

use vstd::prelude::*;
use vstd::utf8;

use crate::lists;
use crate::lists::valid_default_game_list_download;
use crate::seqs;
use crate::seqs::first_failure;

verus! {

// ---------------------------------------------------------------------------
// Places
// ---------------------------------------------------------------------------
/// A directory in which the lists may stand.
#[derive(Clone, Copy, Debug, PartialEq, Eq, Structural)]
pub enum BaseDir {
    /// The directory of the running executable.
    Executable,
    /// The working directory.
    Working,
}

/// The lists in one directory, by file name.
#[derive(Clone, Copy, Debug)]
pub struct GameListPaths {
    pub dir: BaseDir,
    pub default: &'static str,
    pub custom: &'static str,
    pub exclusions: &'static str,
}

/// The lists in the directory `dir`.
pub fn game_list_paths(dir: BaseDir) -> (r: GameListPaths)
    ensures
        r.dir == dir,
        r.default@ == "games_default.txt"@,
        r.custom@ == "games_custom.txt"@,
        r.exclusions@ == "games_excluded.txt"@,
{
    GameListPaths {
        dir,
        default: "games_default.txt",
        custom: "games_custom.txt",
        exclusions: "games_excluded.txt",
    }
}

/// Which of the lists a directory holds.
#[derive(Clone, Copy, Debug)]
pub struct ListPresence {
    pub default: bool,
    pub custom: bool,
    pub exclusions: bool,
}

/// Whether a directory holds any of the lists.
pub fn has_game_list_file(present: ListPresence) -> (r: bool)
    ensures
        r == (present.default || present.custom || present.exclusions),
{
    present.default || present.custom || present.exclusions
}

/// The next step in the search for the directory of the lists.
#[derive(Clone, Copy, Debug, PartialEq, Eq, Structural)]
pub enum BaseDirStep {
    /// Look into this directory.
    Probe(BaseDir),
    /// The lists belong into this directory.
    Use(BaseDir),
}

/// The next step after a look into `probed`. The directory of the executable is looked into
/// first, then the working directory; where neither holds a list, the directory of the
/// executable is used.
pub open spec fn base_dir_step(probed: BaseDir, has_list: bool) -> BaseDirStep {
    if has_list {
        BaseDirStep::Use(probed)
    } else if probed == BaseDir::Executable {
        BaseDirStep::Probe(BaseDir::Working)
    } else {
        BaseDirStep::Use(BaseDir::Executable)
    }
}

/// The next step after a look into `probed`, where `has_list` says whether it holds a list.
pub fn game_list_base_dir(probed: BaseDir, has_list: bool) -> (r: BaseDirStep)
    ensures
        r == base_dir_step(probed, has_list),
{
    if has_list {
        BaseDirStep::Use(probed)
    } else {
        match probed {
            BaseDir::Executable => BaseDirStep::Probe(BaseDir::Working),
            BaseDir::Working => BaseDirStep::Use(BaseDir::Executable),
        }
    }
}

/// One of the lists.
#[derive(Clone, Copy, Debug, PartialEq, Eq, Structural)]
pub enum GameList {
    Default,
    Custom,
    Exclusions,
}

/// What a new community list says before one has been downloaded.
pub const DEFAULT_LIST_TEXT: &'static str = "# One process executable per line. Extension is optional.\n# eldenring.exe\n# Cyberpunk2077.exe\n# bg3.exe\n";

/// A list file that has to be made, with what it says at first.
#[derive(Clone, Copy, Debug)]
pub struct NewListFile {
    pub list: GameList,
    pub contents: &'static str,
}

/// The file that has to be made for `list`.
pub open spec fn is_new_file_for(file: NewListFile, list: GameList) -> bool {
    &&& file.list == list
    &&& file.contents@ == (if list == GameList::Default {
        DEFAULT_LIST_TEXT@
    } else {
        ""@
    })
}

/// Whether a directory holds `list`.
pub open spec fn is_present(present: ListPresence, list: GameList) -> bool {
    match list {
        GameList::Default => present.default,
        GameList::Custom => present.custom,
        GameList::Exclusions => present.exclusions,
    }
}

/// The lists that are missing, in the order in which they are made.
pub open spec fn missing_lists(present: ListPresence) -> Seq<GameList> {
    seq![GameList::Default, GameList::Custom, GameList::Exclusions].filter(
        |list: GameList| !is_present(present, list),
    )
}

/// The list files that have to be made: one for each list that is missing. A new community list
/// starts with a note, the others start empty.
pub fn ensure_game_list_files(present: ListPresence) -> (r: Vec<NewListFile>)
    ensures
        r@.len() == missing_lists(present).len(),
        forall|i: int| 0 <= i < r@.len() ==> is_new_file_for(#[trigger] r@[i], missing_lists(present)[i]),
{
    let mut r: Vec<NewListFile> = Vec::new();
    if !present.default {
        r.push(NewListFile { list: GameList::Default, contents: DEFAULT_LIST_TEXT });
    }
    if !present.custom {
        r.push(NewListFile { list: GameList::Custom, contents: "" });
    }
    if !present.exclusions {
        r.push(NewListFile { list: GameList::Exclusions, contents: "" });
    }
    proof {
        reveal_with_fuel(Seq::filter, 4);
        let all = seq![GameList::Default, GameList::Custom, GameList::Exclusions];
        let p = |list: GameList| !is_present(present, list);
        assert(all.drop_last() =~= seq![GameList::Default, GameList::Custom]);
        assert(all.drop_last().drop_last() =~= seq![GameList::Default]);
        assert(all.drop_last().drop_last().drop_last() =~= Seq::<GameList>::empty());
    }
    r
}

// ---------------------------------------------------------------------------
// Refreshing the community list
// ---------------------------------------------------------------------------
/// The error of `String::from_utf8`.
#[verifier::external_type_specification]
#[verifier::external_body]
pub struct ExFromUtf8Error(std::string::FromUtf8Error);

/// `String::from_utf8` gives the text of valid UTF-8, and an error for any other bytes.
pub assume_specification[ String::from_utf8 ](vec: Vec<u8>) -> (r: Result<
    String,
    std::string::FromUtf8Error,
>)
    ensures
        r is Ok <==> utf8::valid_utf8(vec@),
        r matches Ok(s) ==> utf8::encode_utf8(s@) == vec@,
;

/// Why the community list was not refreshed.
#[derive(Debug)]
pub enum RefreshError<E> {
    /// The download failed.
    Download(E),
    /// The download is not text.
    NotText,
    /// The download does not look like a list.
    NotAList,
}

/// The message for a download that does not look like a list.
pub const NOT_A_LIST_MESSAGE: &'static str = "downloaded default game list did not look valid";

/// The text of a download.
pub fn download_text<E>(download: Result<Vec<u8>, E>) -> (r: Result<String, RefreshError<E>>)
    ensures
        match download {
            Err(e) => r == Err::<String, RefreshError<E>>(RefreshError::Download(e)),
            Ok(bytes) => if utf8::valid_utf8(bytes@) {
                r is Ok && r->Ok_0@ == utf8::decode_utf8(bytes@) && utf8::encode_utf8(r->Ok_0@)
                    == bytes@
            } else {
                r == Err::<String, RefreshError<E>>(RefreshError::NotText)
            },
        },
{
    match download {
        Err(e) => Err(RefreshError::Download(e)),
        Ok(bytes) => match String::from_utf8(bytes) {
            Ok(s) => {
                proof {
                    utf8::encode_utf8_decode_utf8(s@);
                }
                Ok(s)
            },
            Err(_) => Err(RefreshError::NotText),
        },
    }
}

/// What is to be written as the new community list from what its download gave. Nothing is
/// written but a text that looks like a list, and that is written byte for byte.
pub fn refresh_default_game_list<E>(download: Result<Vec<u8>, E>) -> (r: Result<
    String,
    RefreshError<E>,
>)
    ensures
        match download {
            Err(e) => r == Err::<String, RefreshError<E>>(RefreshError::Download(e)),
            Ok(bytes) => if !utf8::valid_utf8(bytes@) {
                r == Err::<String, RefreshError<E>>(RefreshError::NotText)
            } else if !lists::is_game_list(utf8::decode_utf8(bytes@)) {
                r == Err::<String, RefreshError<E>>(RefreshError::NotAList)
            } else {
                r is Ok && r->Ok_0@ == utf8::decode_utf8(bytes@) && utf8::encode_utf8(r->Ok_0@)
                    == bytes@
            },
        },
{
    match download_text(download) {
        Err(e) => Err(e),
        Ok(contents) => {
            if valid_default_game_list_download(contents.as_str()) {
                Ok(contents)
            } else {
                Err(RefreshError::NotAList)
            }
        },
    }
}

// ---------------------------------------------------------------------------
// Replacing a file
// ---------------------------------------------------------------------------
/// The extension of the file that is written before it takes the place of another.
pub const TEMP_EXTENSION: &'static str = "txt.download";

/// A step in replacing a file as a whole.
#[derive(Clone, Copy, Debug, PartialEq, Eq, Structural)]
pub enum WriteStep {
    /// Make the directory of the file.
    CreateParent,
    /// Write the new contents to a temporary file.
    WriteTemp,
    /// Give the temporary file the name of the file.
    Rename,
    /// Remove the temporary file.
    RemoveTemp,
    /// The file has been replaced.
    Done,
    /// The file has not been replaced; the first failure is the error.
    Failed,
}

/// The first step in replacing a file.
pub fn first_write_step(has_parent: bool) -> (r: WriteStep)
    ensures
        r == (if has_parent {
            WriteStep::CreateParent
        } else {
            WriteStep::WriteTemp
        }),
{
    if has_parent {
        WriteStep::CreateParent
    } else {
        WriteStep::WriteTemp
    }
}

/// The step after `step`.
pub open spec fn write_step_after(step: WriteStep, succeeded: bool) -> WriteStep {
    match step {
        WriteStep::CreateParent => if succeeded {
            WriteStep::WriteTemp
        } else {
            WriteStep::Failed
        },
        WriteStep::WriteTemp => if succeeded {
            WriteStep::Rename
        } else {
            WriteStep::Failed
        },
        WriteStep::Rename => if succeeded {
            WriteStep::Done
        } else {
            WriteStep::RemoveTemp
        },
        WriteStep::RemoveTemp => WriteStep::Failed,
        WriteStep::Done => WriteStep::Done,
        WriteStep::Failed => WriteStep::Failed,
    }
}

/// The step after `step`, by whether `step` succeeded.
pub fn write_file_atomically(step: WriteStep, succeeded: bool) -> (r: WriteStep)
    ensures
        r == write_step_after(step, succeeded),
{
    match step {
        WriteStep::CreateParent => if succeeded {
            WriteStep::WriteTemp
        } else {
            WriteStep::Failed
        },
        WriteStep::WriteTemp => if succeeded {
            WriteStep::Rename
        } else {
            WriteStep::Failed
        },
        WriteStep::Rename => if succeeded {
            WriteStep::Done
        } else {
            WriteStep::RemoveTemp
        },
        WriteStep::RemoveTemp => WriteStep::Failed,
        WriteStep::Done => WriteStep::Done,
        WriteStep::Failed => WriteStep::Failed,
    }
}

/// What came of replacing a file, from what its steps gave in turn: the first failure, where there
/// was one.
pub fn write_result<E>(outcomes: Vec<Result<(), E>>) -> (r: Result<(), E>)
    ensures
        r == (match seqs::first_error(outcomes@) {
            Some(e) => Err::<(), E>(e),
            None => Ok(()),
        }),
{
    first_failure(outcomes)
}

// ---------------------------------------------------------------------------
// Laws
// ---------------------------------------------------------------------------
/// The two files that replacing a file touches, each with its contents where it exists.
pub struct Files {
    pub target: Option<Seq<u8>>,
    pub temp: Option<Seq<u8>>,
}

/// The files after a step. A failed write may leave anything in the temporary file.
pub open spec fn files_after(
    files: Files,
    step: WriteStep,
    succeeded: bool,
    contents: Seq<u8>,
    partial: Option<Seq<u8>>,
) -> Files {
    match step {
        WriteStep::WriteTemp => Files {
            target: files.target,
            temp: if succeeded {
                Some(contents)
            } else {
                partial
            },
        },
        WriteStep::Rename => if succeeded {
            Files { target: files.temp, temp: None }
        } else {
            files
        },
        WriteStep::RemoveTemp => if succeeded {
            Files { target: files.target, temp: None }
        } else {
            files
        },
        _ => files,
    }
}

/// What one step meets: whether it succeeds, and what a failed write leaves behind.
pub struct StepOutcome {
    pub succeeded: bool,
    pub partial: Option<Seq<u8>>,
}

/// The files and the step after steps with the given outcomes.
pub open spec fn write_run(
    files: Files,
    step: WriteStep,
    contents: Seq<u8>,
    outcomes: Seq<StepOutcome>,
) -> (Files, WriteStep)
    decreases outcomes.len(),
{
    if outcomes.len() == 0 {
        (files, step)
    } else {
        let (f, s) = write_run(files, step, contents, outcomes.drop_last());
        let o = outcomes.last();
        (files_after(f, s, o.succeeded, contents, o.partial), write_step_after(s, o.succeeded))
    }
}

/// A file is replaced as a whole or not at all: at every moment it holds what it held before or
/// all of the new contents, the latter exactly when the replacing is done; and then the temporary
/// file is gone.
pub proof fn file_is_replaced_whole_or_not_at_all(
    files: Files,
    start: WriteStep,
    contents: Seq<u8>,
    outcomes: Seq<StepOutcome>,
)
    requires
        start == WriteStep::CreateParent || start == WriteStep::WriteTemp,
    ensures
        ({
            let (f, s) = write_run(files, start, contents, outcomes);
            &&& s == WriteStep::Done ==> f.target == Some(contents) && f.temp is None
            &&& s != WriteStep::Done ==> f.target == files.target
            &&& s == WriteStep::Rename || s == WriteStep::RemoveTemp ==> f.temp == Some(contents)
        }),
    decreases outcomes.len(),
{
    if outcomes.len() > 0 {
        file_is_replaced_whole_or_not_at_all(files, start, contents, outcomes.drop_last());
    }
}

/// Replacing a file comes to an end after four steps at most.
pub proof fn replacing_ends(
    files: Files,
    start: WriteStep,
    contents: Seq<u8>,
    outcomes: Seq<StepOutcome>,
)
    requires
        outcomes.len() >= 4,
    ensures
        write_run(files, start, contents, outcomes).1 == WriteStep::Done || write_run(
            files,
            start,
            contents,
            outcomes,
        ).1 == WriteStep::Failed,
    decreases outcomes.len(),
{
    if outcomes.len() > 4 {
        replacing_ends(files, start, contents, outcomes.drop_last());
    } else {
        reveal_with_fuel(write_run, 5);
    }
}

/// The step after steps that gave `outcomes` in turn.
pub open spec fn write_steps<E>(start: WriteStep, outcomes: Seq<Result<(), E>>) -> WriteStep
    decreases outcomes.len(),
{
    if outcomes.len() == 0 {
        start
    } else {
        write_step_after(write_steps(start, outcomes.drop_last()), outcomes.last() is Ok)
    }
}

/// No step is left.
pub open spec fn is_end(step: WriteStep) -> bool {
    step == WriteStep::Done || step == WriteStep::Failed
}

/// A file that was replaced had no step fail, and one that was not had one fail, whose error is the
/// first: that of removing the temporary file never is.
pub proof fn a_failed_replacing_has_a_first_failure<E>(start: WriteStep, outcomes: Seq<Result<(), E>>)
    requires
        start == WriteStep::CreateParent || start == WriteStep::WriteTemp,
        forall|i: int|
            0 <= i < outcomes.len() ==> !is_end(write_steps(start, #[trigger] outcomes.take(i))),
    ensures
        match write_steps(start, outcomes) {
            WriteStep::Failed => seqs::first_error(outcomes) is Some,
            WriteStep::RemoveTemp => seqs::first_error(outcomes) is Some,
            _ => seqs::first_error(outcomes) is None,
        },
        outcomes.len() > 0 && write_steps(start, outcomes.drop_last()) == WriteStep::RemoveTemp
            ==> seqs::first_error(outcomes) == seqs::first_error(outcomes.drop_last()),
    decreases outcomes.len(),
{
    if outcomes.len() > 0 {
        let rest = outcomes.drop_last();
        assert(outcomes.take(outcomes.len() - 1) =~= rest);
        assert forall|i: int| 0 <= i < rest.len() implies !is_end(
            write_steps(start, #[trigger] rest.take(i)),
        ) by {
            assert(rest.take(i) =~= outcomes.take(i));
        }
        a_failed_replacing_has_a_first_failure(start, rest);
    }
}

/// The search for the directory of the lists takes two looks at most. It ends in the working
/// directory exactly where that holds a list and the directory of the executable holds none.
pub proof fn search_prefers_the_executable_directory(executable_has: bool, working_has: bool)
    ensures
        match base_dir_step(BaseDir::Executable, executable_has) {
            BaseDirStep::Use(dir) => executable_has && dir == BaseDir::Executable,
            BaseDirStep::Probe(dir) => !executable_has && dir == BaseDir::Working && base_dir_step(
                dir,
                working_has,
            ) == BaseDirStep::Use(
                if working_has {
                    BaseDir::Working
                } else {
                    BaseDir::Executable
                },
            ),
        },
{
}

/// A temporary file that cannot take the place of the file is removed, and the file stays as it was.
pub proof fn a_file_that_cannot_be_renamed_is_removed(
    files: Files,
    start: WriteStep,
    contents: Seq<u8>,
    outcomes: Seq<StepOutcome>,
    renaming: StepOutcome,
    removing: StepOutcome,
)
    requires
        start == WriteStep::CreateParent || start == WriteStep::WriteTemp,
        write_run(files, start, contents, outcomes).1 == WriteStep::Rename,
        !renaming.succeeded,
        removing.succeeded,
    ensures
        ({
            let (f, s) = write_run(files, start, contents, outcomes.push(renaming).push(removing));
            s == WriteStep::Failed && f.temp is None && f.target == files.target
        }),
{
    let two = outcomes.push(renaming).push(removing);
    assert(two.drop_last() =~= outcomes.push(renaming));
    assert(outcomes.push(renaming).drop_last() =~= outcomes);
    file_is_replaced_whole_or_not_at_all(files, start, contents, outcomes);
    reveal_with_fuel(write_run, 3);
}

} // verus!
