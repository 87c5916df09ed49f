//! Finding the beatmaps of a set in an osu! install directory: the patterns
//! to search with, and what to make of what a search gives. The search
//! itself walks the file system and is left to the caller.

use vstd::prelude::*;
use vstd::string::StringExecFns;

verus! {

/// Why no beatmap was found.
#[derive(Debug, Clone, PartialEq, Eq)]
pub enum Error {
    SetNotFound(String),
    MapNotFound(String),
}

/// What an [`Error`] holds.
pub enum ErrorModel {
    SetNotFound(Seq<char>),
    MapNotFound(Seq<char>),
}

impl DeepView for Error {
    type V = ErrorModel;

    open spec fn deep_view(&self) -> ErrorModel {
        match self {
            Error::SetNotFound(message) => ErrorModel::SetNotFound(message@),
            Error::MapNotFound(message) => ErrorModel::MapNotFound(message@),
        }
    }
}

impl View for Error {
    type V = ErrorModel;

    open spec fn view(&self) -> ErrorModel {
        self.deep_view()
    }
}

/// What the search for a beatmap set gave, up to its first match.
#[derive(Debug, Clone, PartialEq, Eq)]
pub enum Search {
    /// The pattern was refused.
    BadPattern,
    /// Nothing matches.
    Empty,
    /// The first match cannot be read.
    Unreadable,
    /// The path of the first match.
    Found(String),
}

/// The pattern that the directories of the set `beatmap_set` match, below
/// the install directory `osu_path`.
pub open spec fn set_pattern(osu_path: Seq<char>, beatmap_set: Seq<char>) -> Seq<char> {
    osu_path + "/Songs/*"@ + beatmap_set + "*"@
}

/// The pattern that the beatmaps in the directory `set_path` match.
pub open spec fn map_pattern(set_path: Seq<char>) -> Seq<char> {
    set_path + "/*.osu"@
}

/// The message for a set that is not there.
pub open spec fn set_not_found(beatmap_set: Seq<char>) -> ErrorModel {
    ErrorModel::SetNotFound("beamap set "@ + beatmap_set + " not found"@)
}

/// Where to look for the beatmaps of the set `beatmap_set`, given what the
/// search for the set gave: in the first directory found. A search that
/// found none gives the error.
pub open spec fn maps_of(beatmap_set: Seq<char>, search: Search) -> Result<Seq<char>, ErrorModel> {
    match search {
        Search::BadPattern => Err(set_not_found(beatmap_set)),
        Search::Empty => Err(set_not_found(beatmap_set)),
        Search::Unreadable => Err(
            ErrorModel::SetNotFound("first beatmap set found is invalid"@),
        ),
        Search::Found(path) => Ok(map_pattern(path@)),
    }
}

/// The path of the file `name` that lies beside a beatmap, in `directory`.
pub open spec fn beside(directory: Seq<char>, name: Seq<char>) -> Seq<char> {
    directory + "/"@ + name
}

/// The path of a file that a beatmap names, such as its background or its
/// song: the file lies in the directory of the beatmap.
pub fn asset_path(directory: &str, name: &str) -> (path: String)
    ensures
        path@ == beside(directory@, name@),
{
    let mut path = directory.to_owned();
    path.append("/");
    path.append(name);
    path
}

/// The pattern to search for the set `beatmap_set` with.
pub fn beatmap_set_pattern(osu_path: &str, beatmap_set: &str) -> (pattern: String)
    ensures
        pattern@ == set_pattern(osu_path@, beatmap_set@),
{
    let mut pattern = osu_path.to_owned();
    pattern.append("/Songs/*");
    pattern.append(beatmap_set);
    pattern.append("*");
    pattern
}

/// The pattern to search for the beatmaps of a set with, or the error where
/// the set was not found.
pub fn beatmap_pattern(beatmap_set: &str, search: Search) -> (r: Result<String, Error>)
    ensures
        match maps_of(beatmap_set@, search) {
            Ok(pattern) => r matches Ok(p) && p@ == pattern,
            Err(error) => r matches Err(e) && e@ == error,
        },
{
    match search {
        Search::BadPattern | Search::Empty => {
            let mut message = "beamap set ".to_owned();
            message.append(beatmap_set);
            message.append(" not found");
            Err(Error::SetNotFound(message))
        },
        Search::Unreadable => Err(
            Error::SetNotFound("first beatmap set found is invalid".to_owned()),
        ),
        Search::Found(path) => {
            let mut pattern = path;
            pattern.append("/*.osu");
            Ok(pattern)
        },
    }
}

/// The error for a set whose beatmaps cannot be searched.
pub fn maps_not_found() -> (e: Error)
    ensures
        e@ == ErrorModel::MapNotFound("no beatmaps in the se were found"@),
{
    Error::MapNotFound("no beatmaps in the se were found".to_owned())
}

} // verus!
