//! Where the application keeps its state, and the user's download folder.
//!
//! The folders come from the platform's conventions (XDG on Linux) through
//! the `directories` crate; they depend on the environment, so nothing is
//! promised of them beyond being texts.
use crate::model::{default_settings_holds, path_join, Settings};
use crate::text::owned;
use vstd::prelude::*;

verus! {

/// A name made of lower-case ASCII letters and dashes, which the
/// `directories` crate uses unchanged in a project's folder name.
pub open spec fn plain_name(s: Seq<char>) -> bool {
    s.len() > 0 && forall|i: int| 0 <= i < s.len() ==> ('a' <= #[trigger] s[i] <= 'z' || s[i] == '-')
}

/// `p` is a folder path longer than `name` that ends with `name`.
pub open spec fn names_folder(p: Seq<char>, name: Seq<char>) -> bool {
    p.len() > name.len() && p.subrange(p.len() - name.len(), p.len() as int) == name
}

/// `directories::ProjectDirs::from(qualifier, organization, application)`,
/// read as its local data folder; `None` when no home folder is known, which
/// depends on the environment. As the crate's source shows, the folder is
/// never empty: on Linux it is `$XDG_DATA_HOME` (when absolute) or
/// `$HOME/.local/share` with the application's name appended, and `HOME`
/// may not be empty; on macOS it ends in `qualifier.organization.application`.
/// For an application name of lower-case letters and dashes, which the
/// crate leaves as it is, the folder therefore ends with that name on these
/// Unix platforms, the ones this program runs on (on Windows the crate puts
/// a `data` folder below it). Which folder it is is not stated.
#[verifier::external_body]
fn project_data_dir(qualifier: &str, organization: &str, application: &str) -> (r: Option<String>)
    ensures
        r matches Some(p) ==> p@.len() > 0 && (plain_name(application@) ==> names_folder(
            p@,
            application@,
        )),
{
    directories::ProjectDirs::from(qualifier, organization, application).map(
        |p| p.data_local_dir().to_string_lossy().into_owned(),
    )
}

/// `directories::UserDirs::new()`, read as the user's download folder;
/// `None` when there is none. Which folder it is depends on the environment
/// and is not stated; as the source of the crate and of `dirs-sys` shows, it
/// is never empty (it is absolute, or a path below a home folder that may
/// not be empty).
#[verifier::external_body]
fn user_download_dir() -> (r: Option<String>)
    ensures
        r matches Some(p) ==> p@.len() > 0,
{
    directories::UserDirs::new().and_then(
        |d| d.download_dir().map(|p| p.to_string_lossy().into_owned()),
    )
}

/// The state folder, given the platform's local data folder for the
/// application when one is known: that folder, else `.youtuibe` in the
/// working folder.
pub open spec fn state_folder(found: Option<Seq<char>>) -> Seq<char> {
    match found {
        Some(d) => d,
        None => ".youtuibe"@,
    }
}

/// The folder that holds the saved state, given the platform's local data
/// folder for the application when one is known.
pub fn data_dir_from(found: Option<String>) -> (r: String)
    ensures
        r@ == state_folder(
            match found {
                Some(d) => Some(d@),
                None => None,
            },
        ),
{
    match found {
        Some(d) => d,
        None => owned(".youtuibe"),
    }
}

/// The folder that holds the saved state: the platform's local data folder
/// for the application, else `.youtuibe` in the working folder. Which one
/// the platform reports depends on the environment; what is done with it is
/// `data_dir_from`.
pub fn data_dir() -> (r: String)
    ensures
        exists|found: Option<Seq<char>>|
            (found matches Some(d) ==> names_folder(d, "youtuibe"@)) && r@ == #[trigger] state_folder(
                found,
            ),
        names_folder(r@, "youtuibe"@),
{
    proof {
        reveal_strlit("youtuibe");
        reveal_strlit(".youtuibe");
        assert(plain_name("youtuibe"@));
        assert(".youtuibe"@.subrange(1, 9) =~= "youtuibe"@);
    }
    let found = project_data_dir("dev", "youtuibe", "youtuibe");
    let ghost g = match &found {
        Some(d) => Some(d@),
        None => None::<Seq<char>>,
    };
    let r = data_dir_from(found);
    assert(r@ == state_folder(g));
    r
}

/// The state file inside the folder `dir`.
pub fn state_path_in(dir: &str) -> (r: String)
    ensures
        r@ == path_join(dir@, "state.json"@),
{
    crate::model::join_path(dir, "state.json")
}

/// The state file: `state.json` in the data folder.
pub fn state_path() -> (r: String)
    ensures
        exists|dir: Seq<char>| names_folder(dir, "youtuibe"@) && r@ == #[trigger] path_join(dir, "state.json"@),
{
    let d = data_dir();
    state_path_in(d.as_str())
}

/// The state file of the application's earlier name, given the platform's
/// data folder for that name when one is known: `state.json` inside it.
pub open spec fn legacy_state_file(found: Option<Seq<char>>) -> Option<Seq<char>> {
    match found {
        Some(d) => Some(path_join(d, "state.json"@)),
        None => None,
    }
}

/// The earlier application's state file, given its data folder when the
/// platform knows one; `None` exactly when it does not.
pub fn legacy_state_path_from(found: Option<String>) -> (r: Option<String>)
    ensures
        legacy_state_file(
            match found {
                Some(d) => Some(d@),
                None => None,
            },
        ) == match r {
            Some(p) => Some(p@),
            None => None,
        },
{
    match found {
        Some(d) => Some(state_path_in(d.as_str())),
        None => None,
    }
}

/// The state file of the application's earlier name, if a data folder is
/// known for it; it is imported once when no state of its own exists.
/// Whether the platform knows that folder depends on the environment; what
/// is done with its answer is `legacy_state_path_from`.
pub fn legacy_state_path() -> (r: Option<String>)
    ensures
        exists|found: Option<Seq<char>>|
            (found matches Some(d) ==> names_folder(d, "tide-dlp"@)) && #[trigger] legacy_state_file(
                found,
            ) == match r {
                Some(p) => Some(p@),
                None => None,
            },
{
    proof {
        reveal_strlit("tide-dlp");
        assert(plain_name("tide-dlp"@));
    }
    let found = project_data_dir("dev", "tide", "tide-dlp");
    let ghost g = match &found {
        Some(d) => Some(d@),
        None => None::<Seq<char>>,
    };
    let r = legacy_state_path_from(found);
    assert(legacy_state_file(g) == match r {
        Some(p) => Some(p@),
        None => None::<Seq<char>>,
    });
    r
}

impl Default for Settings {
    /// The default settings for this user: downloads go to the user's
    /// download folder (else `downloads` in the working folder).
    fn default() -> (r: Settings)
        ensures
            exists|d: Option<Seq<char>>|
                (d matches Some(x) ==> x.len() > 0) && #[trigger] default_settings_holds(r, d),
            r.output_dir@.len() > 0,
            !crate::text::is_blank(r.output_template@),
    {
        proof {
            reveal_strlit("downloads");
            reveal_strlit("%(uploader|Unknown)s/%(title)s [%(id)s].%(ext)s");
            assert("%(uploader|Unknown)s/%(title)s [%(id)s].%(ext)s"@[0] == '%');
        }
        let d = user_download_dir();
        match d {
            Some(dir) => Settings::defaults_for(Some(dir.as_str())),
            None => Settings::defaults_for(None),
        }
    }
}


} // verus!
