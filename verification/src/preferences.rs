//! User preferences: language, project directory and bookmarks, and the
//! external browser to attach to.
//!
//! The types here are the bare data; reading and writing the preferences
//! file (JSON under `~/.nuphus/preferences.json`) is left to the application.

use vstd::prelude::*;

verus! {

/// The persisted identity of a user-picked external (fingerprint) browser.
///
/// The URL alone does not reconnect: fingerprint browsers usually start with
/// `--remote-debugging-port=0`, so a reopened window listens on a new random
/// port. The executable path finds the running process again, and with it
/// the actual debug port (from its command line or from
/// `<user-data-dir>/DevToolsActivePort`).
#[derive(Clone, Debug)]
pub struct BrowserIdentity {
    /// Human-readable platform name (such as "AdsPower") for display.
    pub name: String,
    /// Path of the browser executable; locates the running process.
    pub exe_path: String,
    /// The `--user-data-dir` the window was started with; the fallback for
    /// finding `DevToolsActivePort` where the command line cannot be read.
    pub user_data_dir: Option<String>,
}

/// A project bookmark: a shortcut to a working directory, kept in the same
/// place as the project directory so that every view sees the same list.
#[derive(Clone, Debug)]
pub struct ProjectBookmark {
    /// Display name (by default the last component of the path).
    pub name: String,
    /// Absolute path.
    pub path: String,
}

impl PartialEq for ProjectBookmark {
    fn eq(&self, other: &Self) -> (r: bool) {
        self.name == other.name && self.path == other.path
    }
}

impl vstd::std_specs::cmp::PartialEqSpecImpl for ProjectBookmark {
    open spec fn obeys_eq_spec() -> bool {
        true
    }

    open spec fn eq_spec(&self, other: &ProjectBookmark) -> bool {
        self.name@ == other.name@ && self.path@ == other.path@
    }
}

/// The user's persisted settings.
#[derive(Clone, Debug)]
pub struct UserPreferences {
    /// Interface language; `zh-CN` by default.
    pub language: String,
    /// The project directory the user set.
    pub project_dir: String,
    /// Project bookmarks.
    pub project_bookmarks: Vec<ProjectBookmark>,
    /// External browser endpoint (DevTools protocol): `None` where never
    /// configured (an endpoint set elsewhere is left alone), `Some("")` where
    /// the user switched back to the managed Chrome (such a setting is
    /// removed), `Some(url)` to attach all browser tools to `url`.
    pub browser_cdp_url: Option<String>,
    /// The picked external browser; meaningful only beside
    /// `browser_cdp_url: Some(url)`.
    pub browser_identity: Option<BrowserIdentity>,
}

impl Default for UserPreferences {
    /// Language `zh-CN`, no project directory, no bookmarks, no external
    /// browser.
    fn default() -> (r: Self)
        ensures
            r.language@ == "zh-CN"@,
            r.project_dir@ == Seq::<char>::empty(),
            r.project_bookmarks@.len() == 0,
            r.browser_cdp_url is None,
            r.browser_identity is None,
    {
        UserPreferences {
            language: String::from_str("zh-CN"),
            project_dir: String::new(),
            project_bookmarks: Vec::new(),
            browser_cdp_url: None,
            browser_identity: None,
        }
    }
}

} // verus!
