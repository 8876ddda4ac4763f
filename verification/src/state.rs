//! The application state and its two transitions: the user picking a
//! library root, and the one background manifest fetch completing. The
//! state is the single source of truth a display layer renders; picking
//! a root replaces the whole location outcome, never single fields.

use vstd::prelude::*;

use crate::locator::{
    get_game_data, has_dir_spec, locate_outcome, location_has_dir, DirEntry, GameData,
    LibraryProbe, PopulateError,
};
use crate::manifest::{latest, manifest_versions, names_view, parse_versions, ManifestError};
use crate::strutil::{lemma_lex_leq_refl, lex_leq};

verus! {

broadcast use vstd::seq_lib::group_to_multiset_ensures;

/// Which failure is shown for the selected location.
#[derive(Clone, Copy, Debug, PartialEq, Eq, Structural)]
pub enum ErrLabel {
    /// The chosen folder has no `steamapps` subdirectory.
    NoSteamApps,
    /// The library's `steamapps` has no `sourcemods`.
    NoSourcemods,
    /// The locator's own classification of the probed root.
    PopulateErr(PopulateError),
}

/// Progress of the one background manifest fetch.
#[derive(Debug)]
pub enum ManifestStatus {
    /// Still underway; nothing arrived yet.
    Pending,
    /// Finished: the latest published version name.
    Ready(String),
    /// Finished without a usable answer.
    Failed(ManifestError),
}

/// The application's single source of truth: the recorded root, the
/// error or installation found for it, and the manifest fetch status.
pub struct AppState {
    pub steam_folder_location: Option<String>,
    pub location_err: Option<ErrLabel>,
    pub game_data: Option<GameData>,
    pub manifest: ManifestStatus,
}

/// The recorded root as text, when one is recorded.
pub open spec fn opt_str_view(o: Option<String>) -> Option<Seq<char>> {
    match o {
        Option::Some(s) => Some(s@),
        Option::None => None,
    }
}

/// An installation as plain text: location, version name, version time.
pub open spec fn game_data_view(o: Option<GameData>) -> Option<(Seq<char>, Seq<char>, Seq<char>)> {
    match o {
        Option::Some(g) => Some((g.location@, g.version.version_name@, g.version.version_time@)),
        Option::None => None,
    }
}

/// Everything of a state that the location machinery owns; the
/// manifest status is the one field left out.
pub open spec fn location_fields(s: AppState) -> (
    Option<Seq<char>>,
    Option<ErrLabel>,
    Option<(Seq<char>, Seq<char>, Seq<char>)>,
) {
    (opt_str_view(s.steam_folder_location), s.location_err, game_data_view(s.game_data))
}

/// The state machine's answer to "the user picked this root", a
/// function of the event alone: no `steamapps` clears the root and
/// reports it; otherwise the locator's classification is recorded
/// beside the root.
pub open spec fn select_outcome(
    root: Seq<char>,
    game_id: Seq<char>,
    entries: Seq<DirEntry>,
    probe: LibraryProbe,
) -> (Option<Seq<char>>, Option<ErrLabel>, Option<(Seq<char>, Seq<char>, Seq<char>)>) {
    if !has_dir_spec(entries, "steamapps"@) {
        (None, Some(ErrLabel::NoSteamApps), None)
    } else {
        match locate_outcome(probe) {
            Ok(v) => (
                Some(root),
                None,
                Some((root + "/steamapps/sourcemods/"@ + game_id, v.0, v.1)),
            ),
            Err(e) => (Some(root), Some(ErrLabel::PopulateErr(e)), None),
        }
    }
}

impl AppState {
    /// An error and an installation never stand together, and an
    /// installation implies a recorded root.
    pub open spec fn wf(self) -> bool {
        &&& !(self.game_data is Some && self.location_err is Some)
        &&& self.game_data is Some ==> self.steam_folder_location is Some
    }

    /// The startup state: nothing selected, fetch underway.
    pub fn new() -> (s: AppState)
        ensures
            s.steam_folder_location is None,
            s.location_err is None,
            s.game_data is None,
            s.manifest is Pending,
            s.wf(),
    {
        AppState {
            steam_folder_location: None,
            location_err: None,
            game_data: None,
            manifest: ManifestStatus::Pending,
        }
    }

    /// The user picked `root`; `entries` lists it and `probe` is what
    /// the filesystem showed beneath it. The whole location outcome is
    /// replaced by a function of this event alone; the manifest status
    /// is carried over untouched.
    pub fn select_location(
        &mut self,
        root: String,
        game_id: &str,
        entries: &Vec<DirEntry>,
        probe: &LibraryProbe,
    )
        ensures
            final(self).manifest == old(self).manifest,
            location_fields(*final(self)) == select_outcome(root@, game_id@, entries@, *probe),
            final(self).wf(),
    {
        if !location_has_dir(entries, "steamapps") {
            self.steam_folder_location = None;
            self.location_err = Some(ErrLabel::NoSteamApps);
            self.game_data = None;
        } else {
            match get_game_data(root.as_str(), game_id, probe) {
                Ok(gd) => {
                    self.steam_folder_location = Some(root);
                    self.location_err = None;
                    self.game_data = Some(gd);
                },
                Err(e) => {
                    self.steam_folder_location = Some(root);
                    self.location_err = Some(ErrLabel::PopulateErr(e));
                    self.game_data = None;
                },
            }
        }
    }

    /// The background fetch finished: `None` for a transport failure,
    /// `Some(text)` for the body that arrived. Only the manifest status
    /// changes; when the text names versions, the status becomes
    /// `Ready` with their lexicographic maximum.
    pub fn fetch_completed(&mut self, outcome: Option<String>)
        requires
            old(self).manifest is Pending,
        ensures
            final(self).steam_folder_location == old(self).steam_folder_location,
            final(self).location_err == old(self).location_err,
            final(self).game_data == old(self).game_data,
            old(self).wf() ==> final(self).wf(),
            match outcome {
                Option::None => final(self).manifest == ManifestStatus::Failed(
                    ManifestError::Transport,
                ),
                Option::Some(raw) => match manifest_versions(raw@) {
                    Option::None => final(self).manifest == ManifestStatus::Failed(
                        ManifestError::Unparseable,
                    ),
                    Option::Some(keys) => if keys.len() == 0 {
                        final(self).manifest == ManifestStatus::Failed(ManifestError::Empty)
                    } else {
                        &&& final(self).manifest matches ManifestStatus::Ready(l)
                        &&& keys.contains(l@)
                        &&& forall|k: Seq<char>| #[trigger] keys.contains(k) ==> lex_leq(k, l@)
                    },
                },
            },
    {
        match outcome {
            None => {
                self.manifest = ManifestStatus::Failed(ManifestError::Transport);
            },
            Some(raw) => {
                match parse_versions(raw.as_str()) {
                    Err(_) => {
                        self.manifest = ManifestStatus::Failed(ManifestError::Unparseable);
                    },
                    Ok(vers) => {
                        match latest(&vers) {
                            Err(_) => {
                                proof {
                                    let keys = manifest_versions(raw@)->Some_0;
                                    assert(names_view(vers@).len() == 0);
                                    assert(names_view(vers@).to_multiset().len()
                                        == names_view(vers@).len());
                                    assert(keys.to_multiset().len() == keys.len());
                                    assert(keys.len() == 0);
                                }
                                self.manifest = ManifestStatus::Failed(ManifestError::Empty);
                            },
                            Ok(l) => {
                                let chosen = l.clone();
                                proof {
                                    let keys = manifest_versions(raw@)->Some_0;
                                    let nv = names_view(vers@);
                                    let last = nv.len() - 1;
                                    assert(nv[last] == chosen@);
                                    assert(nv.contains(chosen@));
                                    assert(keys.to_multiset().count(chosen@) > 0);
                                    assert(keys.contains(chosen@));
                                    assert(keys.len() > 0);
                                    assert forall|k: Seq<char>| #[trigger]
                                        keys.contains(k) implies lex_leq(k, chosen@) by {
                                        assert(keys.to_multiset().count(k) > 0);
                                        assert(nv.contains(k));
                                        let i = choose|i: int| 0 <= i < nv.len() && nv[i] == k;
                                        if i < last {
                                            assert(lex_leq(vers@[i]@, vers@[last]@));
                                        } else {
                                            lemma_lex_leq_refl(chosen@);
                                        }
                                    }
                                }
                                self.manifest = ManifestStatus::Ready(chosen);
                            },
                        }
                    },
                }
            },
        }
    }
}

/// Law: re-selecting a location fully replaces the prior location
/// state. Two selections that see the same event land in the same
/// location fields no matter what state came before, and neither
/// touches the manifest status.
pub proof fn lemma_reselect_replaces(
    pre1: AppState,
    post1: AppState,
    pre2: AppState,
    post2: AppState,
    root: Seq<char>,
    game_id: Seq<char>,
    entries: Seq<DirEntry>,
    probe: LibraryProbe,
)
    requires
        location_fields(post1) == select_outcome(root, game_id, entries, probe),
        post1.manifest == pre1.manifest,
        location_fields(post2) == select_outcome(root, game_id, entries, probe),
        post2.manifest == pre2.manifest,
    ensures
        location_fields(post1) == location_fields(post2),
        pre1.manifest == pre2.manifest ==> post1.manifest == post2.manifest,
{
}

} // verus!
