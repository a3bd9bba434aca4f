//! The operator's preferences and the place where they are kept.

use crate::paths::{join_path, joined_path};
use vstd::prelude::*;

verus! {

/// The preferences that outlive a run of the launcher. An absent field means
/// "use the default".
#[derive(Debug)]
pub struct AppSettings {
    /// The configuration file of the last successful launch.
    pub last_config: Option<String>,
    /// The directory of the server executable, where the launcher does not sit next to it.
    pub server_dir: Option<String>,
}

/// The preferences as plain text values.
pub struct AppSettingsView {
    pub last_config: Option<Seq<char>>,
    pub server_dir: Option<Seq<char>>,
}

/// An optional text as an optional sequence of characters.
pub open spec fn opt_text(text: Option<String>) -> Option<Seq<char>> {
    match text {
        Some(t) => Some(t@),
        None => None,
    }
}

impl View for AppSettings {
    type V = AppSettingsView;

    open spec fn view(&self) -> AppSettingsView {
        AppSettingsView {
            last_config: opt_text(self.last_config),
            server_dir: opt_text(self.server_dir),
        }
    }
}

/// A copy of an optional text.
pub fn copy_opt_text(text: &Option<String>) -> (r: Option<String>)
    ensures
        opt_text(r) == opt_text(*text),
{
    match text {
        Some(t) => Some(t.clone()),
        None => None,
    }
}

impl Clone for AppSettings {
    fn clone(&self) -> (r: Self)
        ensures
            r@ == self@,
    {
        AppSettings {
            last_config: copy_opt_text(&self.last_config),
            server_dir: copy_opt_text(&self.server_dir),
        }
    }
}

/// Tells whether two optional texts are equal.
pub fn same_opt_text(a: &Option<String>, b: &Option<String>) -> (r: bool)
    ensures
        r == (opt_text(*a) == opt_text(*b)),
{
    match (a, b) {
        (Some(x), Some(y)) => *x == *y,
        (None, None) => true,
        _ => false,
    }
}

impl PartialEq for AppSettings {
    fn eq(&self, other: &Self) -> (r: bool) {
        same_opt_text(&self.last_config, &other.last_config) && same_opt_text(
            &self.server_dir,
            &other.server_dir,
        )
    }
}

impl vstd::std_specs::cmp::PartialEqSpecImpl for AppSettings {
    open spec fn obeys_eq_spec() -> bool {
        true
    }

    open spec fn eq_spec(&self, other: &Self) -> bool {
        self@ == other@
    }
}

impl Default for AppSettings {
    fn default() -> (r: Self)
        ensures
            r@ == (AppSettingsView { last_config: None, server_dir: None }),
    {
        AppSettings { last_config: None, server_dir: None }
    }
}

/// The preferences that a run starts with: those that were stored, or the
/// defaults where none could be read (no file, an unreadable file, a file that
/// does not parse).
pub fn load_settings(stored: Option<AppSettings>) -> (settings: AppSettings)
    ensures
        settings@ == match stored {
            Some(s) => s@,
            None => (AppSettingsView { last_config: None, server_dir: None }),
        },
{
    match stored {
        Some(s) => s,
        None => AppSettings::default(),
    }
}

/// The file name of the preferences file.
pub open spec fn settings_file_name() -> Seq<char> {
    "settings.json"@
}

/// The place where the preferences are kept.
#[derive(Clone, Debug, PartialEq)]
pub struct SettingsLocation {
    /// The application's configuration directory, which a save creates where it is missing.
    pub dir: String,
    /// The preferences file in that directory.
    pub file: String,
}

impl SettingsLocation {
    /// The file is the preferences file of the directory.
    pub open spec fn wf(&self) -> bool {
        self.file@ == joined_path(self.dir@, settings_file_name())
    }
}

/// Asks `directories::ProjectDirs::from` for the directories of the
/// application with the given identity and takes `config_dir` of the answer.
/// Trusted, and nothing is promised of the result: it depends on the
/// platform and on the user's environment, and is `None` where no home
/// directory is known.
#[verifier::external_body]
fn project_config_dir(qualifier: &str, organization: &str, application: &str) -> (dir: Option<
    String,
>) {
    match directories::ProjectDirs::from(qualifier, organization, application) {
        Some(dirs) => Some(dirs.config_dir().to_string_lossy().into_owned()),
        None => None,
    }
}

/// The place of the preferences in a given configuration directory, if there is one.
pub fn settings_location_in(config_dir: Option<String>) -> (location: Option<SettingsLocation>)
    ensures
        config_dir is None ==> location is None,
        config_dir is Some ==> location is Some && location->0.dir@ == config_dir->0@
            && location->0.wf(),
{
    match config_dir {
        Some(dir) => {
            let file = join_path(dir.as_str(), "settings.json");
            Some(SettingsLocation { dir, file })
        },
        None => None,
    }
}

/// The place of the preferences on this machine: the file `settings.json` in
/// the configuration directory that the platform gives the application
/// "ReforgerLauncher" of the organisation "MAG", qualifier "com". `None` where
/// the platform knows no such directory.
pub fn settings_location() -> (location: Option<SettingsLocation>)
    ensures
        location is Some ==> location->0.wf(),
{
    settings_location_in(project_config_dir("com", "MAG", "ReforgerLauncher"))
}

} // verus!
