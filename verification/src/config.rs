//! Where the settings live, and what loading them gives.
use vstd::prelude::*;

use crate::settings::{
    AppSettings, AppSettingsView, SettingsError, default_settings_view, settings_problem,
};
use crate::paths::portable_path;
use crate::text::copy_string;

verus! {

/// Settings as loaded, and whether this is the first run (no settings file
/// yet).
#[derive(Clone, Debug)]
pub struct LoadedSettings {
    settings: AppSettings,
    first_run: bool,
}

impl View for LoadedSettings {
    type V = (AppSettingsView, bool);

    closed spec fn view(&self) -> (AppSettingsView, bool) {
        (self.settings@, self.first_run)
    }
}

impl LoadedSettings {
    /// The first run: no settings file, so the defaults.
    pub fn first_run_defaults() -> (r: Self)
        ensures
            r@ == (default_settings_view(), true),
    {
        LoadedSettings { settings: AppSettings::default(), first_run: true }
    }

    /// Settings read from the settings file: accepted when they are valid,
    /// otherwise the validation error.
    pub fn loaded(settings: AppSettings) -> (r: Result<Self, SettingsError>)
        ensures
            match settings_problem(settings@) {
                None => r matches Ok(x) && x@ == (settings@, false),
                Some(e) => r matches Err(x) && x@ == e,
            },
    {
        match settings.validate() {
            Ok(()) => Ok(LoadedSettings { settings, first_run: false }),
            Err(e) => Err(e),
        }
    }

    /// The settings.
    pub fn settings(&self) -> (r: &AppSettings)
        ensures
            r@ == self@.0,
    {
        &self.settings
    }

    /// Whether there was no settings file.
    pub fn first_run(&self) -> (r: bool)
        ensures
            r == self@.1,
    {
        self.first_run
    }
}

/// A name that every platform reads as one plain path component: not
/// empty, not `.` or `..`, and without `/`, `\` or `:`.
pub open spec fn plain_name(s: Seq<char>) -> bool {
    &&& s.len() > 0
    &&& s != "."@
    &&& s != ".."@
    &&& !s.contains('/')
    &&& !s.contains('\\')
    &&& !s.contains(':')
}

/// `s` without the separators and `.` pieces that end it, as
/// `Path::components` skips them; a lone root or `.` stays.
pub open spec fn trim_back(s: Seq<char>) -> Seq<char>
    decreases s.len(),
{
    if s.len() <= 1 {
        s
    } else if s.last() == '/' {
        trim_back(s.drop_last())
    } else if s.last() == '.' && s[s.len() - 2] == '/' {
        trim_back(s.drop_last())
    } else {
        s
    }
}

/// The position of the last `/` of `s`, if any.
pub open spec fn last_slash(s: Seq<char>) -> Option<int>
    decreases s.len(),
{
    if s.len() == 0 {
        None
    } else if s.last() == '/' {
        Some(s.len() - 1)
    } else {
        last_slash(s.drop_last())
    }
}

/// The parent of a path that every platform reads alike and whose last
/// component is a plain name, as `Path::parent` gives it: the text before
/// that name, without the separators and `.` pieces that end it (empty for
/// a path of one name). `None` for other paths.
pub open spec fn plain_parent(path: Seq<char>) -> Option<Seq<char>> {
    if !portable_path(path) {
        None
    } else {
        let t = trim_back(path);
        match last_slash(t) {
            Some(k) => if plain_name(t.skip(k + 1)) {
                Some(trim_back(t.take(k + 1)))
            } else {
                None
            },
            None => if plain_name(t) {
                Some(Seq::empty())
            } else {
                None
            },
        }
    }
}

/// The parent directory of `path` by `std::path::Path::parent`: what the
/// path names without its final component. On a path that holds no `\`
/// or `:`, does not start with `//`, and ends in a plain name (trailing
/// separators and `.` pieces aside), every platform gives `plain_parent`;
/// elsewhere the platform's separators and prefixes decide, and only that
/// the parent is a prefix of `path` is claimed.
#[verifier::external_body]
fn path_parent(path: &str) -> (r: Option<String>)
    ensures
        r matches Some(p) ==> p@.len() <= path@.len() && p@ == path@.take(p@.len() as int),
        plain_parent(path@) is Some ==> crate::provider::opt_view(r) == plain_parent(path@),
{
    std::path::Path::new(path).parent().map(|p| p.to_string_lossy().into_owned())
}

/// The location of the settings file. Paths are held as text.
#[derive(Clone, Debug)]
pub struct ConfigStore {
    path: String,
}

impl View for ConfigStore {
    type V = Seq<char>;

    closed spec fn view(&self) -> Seq<char> {
        self.path@
    }
}

impl ConfigStore {
    /// Settings kept in the file at `path`.
    pub fn at(path: String) -> (r: Self)
        ensures
            r@ == path@,
    {
        ConfigStore { path }
    }

    /// The settings file.
    pub fn path(&self) -> (r: &str)
        ensures
            r@ == self@,
    {
        self.path.as_str()
    }

    /// The directory that holds the settings file, by `Path::parent`:
    /// `plain_parent` of a path that every platform reads alike and that
    /// ends in a plain name; `None` for a path without a parent.
    pub fn data_directory(&self) -> (r: Option<String>)
        ensures
            r matches Some(p) ==> p@.len() <= self@.len() && p@ == self@.take(p@.len() as int),
            plain_parent(self@) is Some ==> crate::provider::opt_view(r) == plain_parent(self@),
    {
        path_parent(self.path.as_str())
    }
}

} // verus!
