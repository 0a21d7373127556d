//! The settings of the application, where they are kept, and what the
//! attempts to save and to load them come to.

use crate::combo::{ComboConfig, ComboConfigView};
use crate::hotkey::{HotkeyConfig, HotkeyConfigView};
use directories::ProjectDirs;
use std::path::Path;
use vstd::prelude::*;

verus! {

/// Why settings could not be saved or loaded.
#[derive(Debug, PartialEq, Eq)]
pub enum SettingsError {
    SaveError(String),
    LoadError(String),
    /// The system names no place for the settings.
    PathNotFound,
}

impl SettingsError {
    /// The text shown to a user for this error.
    pub open spec fn text(self) -> Seq<char> {
        match self {
            SettingsError::SaveError(detail) => "Failed to save settings: "@ + detail@,
            SettingsError::LoadError(detail) => "Failed to load settings: "@ + detail@,
            SettingsError::PathNotFound => "Settings path not found"@,
        }
    }

    /// The text shown to a user for this error.
    pub fn message(&self) -> (message: String)
        ensures
            message@ == self.text(),
    {
        match self {
            SettingsError::SaveError(detail) => {
                String::from_str("Failed to save settings: ").concat(detail.as_str())
            },
            SettingsError::LoadError(detail) => {
                String::from_str("Failed to load settings: ").concat(detail.as_str())
            },
            SettingsError::PathNotFound => String::from_str("Settings path not found"),
        }
    }
}

/// Everything a user can configure.
#[derive(Debug, PartialEq, Eq)]
pub struct Settings {
    pub hotkeys: HotkeyConfig,
    pub combo: ComboConfig,
    pub start_minimized: bool,
    pub launch_at_startup: bool,
    pub show_notifications: bool,
    pub theme: String,
}

/// The content of [`Settings`].
pub struct SettingsView {
    pub hotkeys: HotkeyConfigView,
    pub combo: ComboConfigView,
    pub start_minimized: bool,
    pub launch_at_startup: bool,
    pub show_notifications: bool,
    pub theme: Seq<char>,
}

impl View for Settings {
    type V = SettingsView;

    open spec fn view(&self) -> SettingsView {
        SettingsView {
            hotkeys: self.hotkeys@,
            combo: self.combo@,
            start_minimized: self.start_minimized,
            launch_at_startup: self.launch_at_startup,
            show_notifications: self.show_notifications,
            theme: self.theme@,
        }
    }
}

impl SettingsView {
    /// The settings that a fresh installation starts with.
    pub open spec fn initial() -> SettingsView {
        SettingsView {
            hotkeys: HotkeyConfigView::initial(),
            combo: ComboConfigView::initial(),
            start_minimized: false,
            launch_at_startup: false,
            show_notifications: true,
            theme: "system"@,
        }
    }
}

impl Default for Settings {
    fn default() -> (settings: Settings)
        ensures
            settings@ == SettingsView::initial(),
    {
        Settings {
            hotkeys: HotkeyConfig::default(),
            combo: ComboConfig::default(),
            start_minimized: false,
            launch_at_startup: false,
            show_notifications: true,
            theme: String::from_str("system"),
        }
    }
}

impl Clone for Settings {
    fn clone(&self) -> (copy: Settings)
        ensures
            copy@ == self@,
    {
        Settings {
            hotkeys: self.hotkeys.clone(),
            combo: self.combo.clone(),
            start_minimized: self.start_minimized,
            launch_at_startup: self.launch_at_startup,
            show_notifications: self.show_notifications,
            theme: self.theme.clone(),
        }
    }
}

/// The name of the settings file.
pub const SETTINGS_FILE: &'static str = "settings.json";

/// The path that `Path::join` makes of the directory `dir` and the relative
/// path `name`, both as text.
pub uninterp spec fn joined(dir: Seq<char>, name: Seq<char>) -> Seq<char>;

/// `ProjectDirs::from` for the project of these three names, and of the
/// result `ProjectDirs::config_dir`, as text: the directory that the system
/// sets aside for the project's configuration. The answer depends on the
/// system and on the user's account; there is none where the system names no
/// home directory or the path is not valid Unicode. Nothing is claimed.
#[verifier::external_body]
fn project_config_dir(qualifier: &str, organization: &str, application: &str) -> Option<String> {
    ProjectDirs::from(qualifier, organization, application).and_then(
        |dirs| dirs.config_dir().to_str().map(|text| text.to_string()),
    )
}

/// `Path::join`, on text: the path of the entry `name` in the directory
/// `dir`.
#[verifier::external_body]
fn join_path(dir: &str, name: &str) -> (path: String)
    ensures
        path@ == joined(dir@, name@),
{
    Path::new(dir).join(name).to_string_lossy().into_owned()
}

/// The directory in which the settings file lives, if the system names one.
fn get_settings_dir() -> Option<String> {
    project_config_dir("com", "basishax", "BasisHax")
}

/// The path of the settings file, given the settings directory: the file
/// [`SETTINGS_FILE`] in it. Without a directory there is no path.
pub fn settings_path_in(dir: Option<String>) -> (path: Option<String>)
    ensures
        match dir {
            Some(dir) => path matches Some(file) && file@ == joined(dir@, SETTINGS_FILE@),
            None => path is None,
        },
{
    match dir {
        Some(dir) => Some(join_path(dir.as_str(), SETTINGS_FILE)),
        None => None,
    }
}

/// The path of the settings file: [`SETTINGS_FILE`] in the directory that the
/// system sets aside for this application, if it names one.
pub fn get_settings_path() -> (path: Option<String>)
    ensures
        path matches Some(file) ==> exists|dir: Seq<char>| file@ == joined(dir, SETTINGS_FILE@),
{
    settings_path_in(get_settings_dir())
}

/// How an attempt to write the settings to disk went: the first step that
/// failed, with what the system said, or that none did.
#[derive(Debug, PartialEq, Eq)]
pub enum SaveReport {
    /// There is no path for the settings file.
    NoPath,
    /// The settings directory could not be created.
    DirectoryNotCreated(String),
    /// The settings could not be turned into text.
    NotSerialized(String),
    /// The settings file could not be created.
    FileNotCreated(String),
    /// The text could not be written to the file.
    NotWritten(String),
    /// The settings are on disk.
    Saved,
}

/// How an attempt to read the settings from disk went: the first step that
/// failed, with what the system said, or what was found.
#[derive(Debug, PartialEq, Eq)]
pub enum LoadReport {
    /// There is no path for the settings file.
    NoPath,
    /// There is no settings file yet.
    NoFile,
    /// The settings file could not be opened.
    NotOpened(String),
    /// The settings file could not be read.
    NotRead(String),
    /// The content of the settings file is not a valid set of settings.
    NotParsed(String),
    /// These settings were read.
    Loaded(Settings),
}

impl SaveReport {
    /// The diagnostic of a failed attempt: which step failed, and why.
    pub open spec fn diagnostic(self) -> Seq<char> {
        match self {
            SaveReport::DirectoryNotCreated(why) => "Failed to create settings directory: "@
                + why@,
            SaveReport::NotSerialized(why) => "Failed to serialize settings: "@ + why@,
            SaveReport::FileNotCreated(why) => "Failed to create settings file: "@ + why@,
            SaveReport::NotWritten(why) => "Failed to write settings: "@ + why@,
            _ => Seq::empty(),
        }
    }
}

impl LoadReport {
    /// The diagnostic of a failed attempt: which step failed, and why.
    pub open spec fn diagnostic(self) -> Seq<char> {
        match self {
            LoadReport::NotOpened(why) => "Failed to open settings file: "@ + why@,
            LoadReport::NotRead(why) => "Failed to read settings file: "@ + why@,
            LoadReport::NotParsed(why) => "Failed to parse settings: "@ + why@,
            _ => Seq::empty(),
        }
    }
}

/// The save error whose diagnostic is `step` followed by `why`.
fn save_failure(step: &str, why: &String) -> (error: SettingsError)
    ensures
        error matches SettingsError::SaveError(detail) && detail@ == step@ + why@,
{
    SettingsError::SaveError(String::from_str(step).concat(why.as_str()))
}

/// The load error whose diagnostic is `step` followed by `why`.
fn load_failure(step: &str, why: &String) -> (error: SettingsError)
    ensures
        error matches SettingsError::LoadError(detail) && detail@ == step@ + why@,
{
    SettingsError::LoadError(String::from_str(step).concat(why.as_str()))
}

/// The result of saving the settings, from how the attempt went.
pub fn save_settings(report: SaveReport) -> (result: Result<(), SettingsError>)
    ensures
        match report {
            SaveReport::Saved => result is Ok,
            SaveReport::NoPath => result == Err::<(), SettingsError>(SettingsError::PathNotFound),
            _ => result matches Err(SettingsError::SaveError(detail)) && detail@
                == report.diagnostic(),
        },
{
    match report {
        SaveReport::Saved => Ok(()),
        SaveReport::NoPath => Err(SettingsError::PathNotFound),
        SaveReport::DirectoryNotCreated(why) => Err(
            save_failure("Failed to create settings directory: ", &why),
        ),
        SaveReport::NotSerialized(why) => Err(save_failure("Failed to serialize settings: ", &why)),
        SaveReport::FileNotCreated(why) => Err(
            save_failure("Failed to create settings file: ", &why),
        ),
        SaveReport::NotWritten(why) => Err(save_failure("Failed to write settings: ", &why)),
    }
}

/// The result of loading the settings, from how the attempt went. Where no
/// settings file exists yet, the default settings are the result.
pub fn load_settings(report: LoadReport) -> (result: Result<Settings, SettingsError>)
    ensures
        match report {
            LoadReport::Loaded(settings) => result == Ok::<Settings, SettingsError>(settings),
            LoadReport::NoFile => result matches Ok(settings) && settings@
                == SettingsView::initial(),
            LoadReport::NoPath => result == Err::<Settings, SettingsError>(
                SettingsError::PathNotFound,
            ),
            _ => result matches Err(SettingsError::LoadError(detail)) && detail@
                == report.diagnostic(),
        },
{
    match report {
        LoadReport::Loaded(settings) => Ok(settings),
        LoadReport::NoFile => Ok(Settings::default()),
        LoadReport::NoPath => Err(SettingsError::PathNotFound),
        LoadReport::NotOpened(why) => Err(load_failure("Failed to open settings file: ", &why)),
        LoadReport::NotRead(why) => Err(load_failure("Failed to read settings file: ", &why)),
        LoadReport::NotParsed(why) => Err(load_failure("Failed to parse settings: ", &why)),
    }
}

} // verus!
