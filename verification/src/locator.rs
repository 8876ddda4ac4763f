//! Classifying a chosen Steam library root. The filesystem itself is
//! read by the caller; this module takes what those probes showed as
//! plain values and decides, exactly, whether the game is installed
//! there and which error to report otherwise.

use vstd::prelude::*;
use vstd::string::StringExecFns;

use crate::strutil::str_eq;
use crate::version::{
    parse_version_file, sus_to_version, version_from_text, Version,
};

verus! {

/// What an existence check of one directory showed: it is there, it is
/// not, or the probe itself failed (no clean answer).
#[derive(Clone, Copy, Debug, PartialEq, Eq, Structural)]
pub enum DirProbe {
    Present,
    Absent,
    Unknown,
}

/// What the filesystem showed beneath a candidate root: whether the
/// game directory `<root>/steamapps/sourcemods/<game-id>` exists,
/// whether `<root>/steamapps/sourcemods` exists, and the text of the
/// game directory's `version.txt` where it could be read.
pub struct LibraryProbe {
    pub game_dir: DirProbe,
    pub sourcemods_dir: DirProbe,
    pub version_file: Option<String>,
}

/// One directory entry: its name, and whether it is itself a
/// directory (an entry whose metadata could not be read counts as not
/// a directory).
pub struct DirEntry {
    pub name: String,
    pub is_dir: bool,
}

/// Why no game installation was produced for a probed root.
#[derive(Clone, Copy, Debug, PartialEq, Eq, Structural)]
pub enum PopulateError {
    /// `sourcemods` exists but the game's own folder does not; the
    /// library is fine, the game is just not installed.
    SourcemodsEmpty,
    /// The library has no `sourcemods` folder at all.
    NoSourcemods,
    /// The game directory exists but `version.txt` could not be read.
    NoVersionFile,
    /// `version.txt` was read but is not a well-formed descriptor.
    VersionFileParseError,
    /// A filesystem probe failed outright instead of answering.
    InternalError,
}

/// An installed game: where it lives and the version its descriptor
/// names.
#[derive(Debug)]
pub struct GameData {
    pub location: String,
    pub version: Version,
}

/// The classification the locator owes for given probe results: the
/// descriptor's version on success, the exact error otherwise.
pub open spec fn locate_outcome(probe: LibraryProbe) -> Result<(Seq<char>, Seq<char>), PopulateError> {
    match probe.game_dir {
        DirProbe::Present => match probe.version_file {
            Option::None => Err(PopulateError::NoVersionFile),
            Option::Some(t) => match version_from_text(t@) {
                Option::None => Err(PopulateError::VersionFileParseError),
                Option::Some(v) => Ok(v),
            },
        },
        DirProbe::Absent => match probe.sourcemods_dir {
            DirProbe::Present => Err(PopulateError::SourcemodsEmpty),
            DirProbe::Absent => Err(PopulateError::NoSourcemods),
            DirProbe::Unknown => Err(PopulateError::InternalError),
        },
        DirProbe::Unknown => Err(PopulateError::InternalError),
    }
}

/// Classify a probed root. On success the installation's location is
/// the game directory under the root; every failure is the one
/// classified error for what the probes showed.
pub fn get_game_data(steam_folder_location: &str, game_id: &str, probe: &LibraryProbe) -> (r:
    Result<GameData, PopulateError>)
    ensures
        match r {
            Ok(gd) => locate_outcome(*probe) == Ok::<_, PopulateError>(
                (gd.version.version_name@, gd.version.version_time@),
            ) && gd.location@ == steam_folder_location@ + "/steamapps/sourcemods/"@ + game_id@,
            Err(e) => locate_outcome(*probe) == Err::<(Seq<char>, Seq<char>), _>(e),
        },
{
    match probe.game_dir {
        DirProbe::Present => {
            let text = match &probe.version_file {
                Some(t) => t,
                None => {
                    return Err(PopulateError::NoVersionFile);
                },
            };
            let kv = match parse_version_file(text.as_str()) {
                Some(kv) => kv,
                None => {
                    return Err(PopulateError::VersionFileParseError);
                },
            };
            let version = match sus_to_version(&kv) {
                Some(v) => v,
                None => {
                    return Err(PopulateError::VersionFileParseError);
                },
            };
            let mut location = steam_folder_location.to_owned();
            location.append("/steamapps/sourcemods/");
            location.append(game_id);
            Ok(GameData { location, version })
        },
        DirProbe::Absent => match probe.sourcemods_dir {
            DirProbe::Present => Err(PopulateError::SourcemodsEmpty),
            DirProbe::Absent => Err(PopulateError::NoSourcemods),
            DirProbe::Unknown => Err(PopulateError::InternalError),
        },
        DirProbe::Unknown => Err(PopulateError::InternalError),
    }
}

/// Whether some entry is a directory of the given name.
pub open spec fn has_dir_spec(entries: Seq<DirEntry>, name: Seq<char>) -> bool {
    exists|i: int| 0 <= i < entries.len() && entries[i].is_dir && entries[i].name@ == name
}

/// Whether the listed directory directly contains a subdirectory named
/// `dirname`; false when no entry of that name is a directory, whatever
/// else the listing holds.
pub fn location_has_dir(entries: &Vec<DirEntry>, dirname: &str) -> (r: bool)
    ensures
        r == has_dir_spec(entries@, dirname@),
{
    let mut i: usize = 0;
    while i < entries.len()
        invariant
            i <= entries@.len(),
            forall|j: int| 0 <= j < i ==> !(entries@[j].is_dir && entries@[j].name@ == dirname@),
        decreases entries@.len() - i,
    {
        let e = &entries[i];
        if e.is_dir && str_eq(e.name.as_str(), dirname) {
            proof {
                assert(entries@[i as int].is_dir && entries@[i as int].name@ == dirname@);
            }
            return true;
        }
        i = i + 1;
    }
    false
}

/// The conventional Steam install path that is probed at startup.
pub fn default_steam_path() -> (r: &'static str)
    ensures
        r@ == "C:\\Program Files (x86)\\Steam"@,
{
    "C:\\Program Files (x86)\\Steam"
}

/// The best-effort default root: the conventional Steam path, taken
/// only when it is a directory (`default_exists`) whose entries hold a
/// `steamapps` subdirectory.
pub fn get_default_steam_location(default_exists: bool, entries: &Vec<DirEntry>) -> (r: Option<
    String,
>)
    ensures
        r is Some <==> (default_exists && has_dir_spec(entries@, "steamapps"@)),
        r matches Some(p) ==> p@ == "C:\\Program Files (x86)\\Steam"@,
{
    if default_exists && location_has_dir(entries, "steamapps") {
        Some(default_steam_path().to_owned())
    } else {
        None
    }
}

} // verus!
