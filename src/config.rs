//! The config document and the changes that the accessors make to it.

use vstd::prelude::*;
use crate::entries::{entries_map, keys_unique, remove_key, upsert};

verus! {

/// A saved login: the user name and the password for one URL.
#[derive(Clone, Debug, PartialEq, Eq)]
pub struct Credential {
    pub username: String,
    pub password: String,
}

impl View for Credential {
    type V = (Seq<char>, Seq<char>);

    open spec fn view(&self) -> (Seq<char>, Seq<char>) {
        (self.username@, self.password@)
    }
}

/// What a config document means: maps keyed by URL, the tab list in order,
/// and the two preferences.
pub struct ConfigModel {
    pub passwords: Map<Seq<char>, (Seq<char>, Seq<char>)>,
    pub bookmarks: Map<Seq<char>, Seq<char>>,
    pub previous_tabs: Seq<Seq<char>>,
    pub preferred_browser: Seq<char>,
    pub smooth_scrolling: bool,
}

/// The document with nothing in it: empty maps and tab list, no preferred
/// browser, smooth scrolling off.
pub open spec fn default_model() -> ConfigModel {
    ConfigModel {
        passwords: Map::empty(),
        bookmarks: Map::empty(),
        previous_tabs: Seq::empty(),
        preferred_browser: Seq::empty(),
        smooth_scrolling: false,
    }
}

/// The views of a list of strings.
pub open spec fn strings_view(s: Seq<String>) -> Seq<Seq<char>> {
    s.map_values(|t: String| t@)
}

/// The config document. Passwords and bookmarks are lists of entries keyed by
/// URL, each URL at most once.
#[derive(Clone, Debug, PartialEq, Eq)]
pub struct BrowserConfig {
    pub passwords: Vec<(String, Credential)>,
    pub bookmarks: Vec<(String, String)>,
    pub previous_tabs: Vec<String>,
    pub preferred_browser: String,
    pub smooth_scrolling: bool,
}

impl View for BrowserConfig {
    type V = ConfigModel;

    open spec fn view(&self) -> ConfigModel {
        ConfigModel {
            passwords: entries_map(self.passwords@),
            bookmarks: entries_map(self.bookmarks@),
            previous_tabs: strings_view(self.previous_tabs@),
            preferred_browser: self.preferred_browser@,
            smooth_scrolling: self.smooth_scrolling,
        }
    }
}

impl BrowserConfig {
    /// No URL has two password entries or two bookmark entries.
    pub open spec fn wf(&self) -> bool {
        keys_unique(self.passwords@) && keys_unique(self.bookmarks@)
    }
}

impl Default for BrowserConfig {
    fn default() -> (r: BrowserConfig)
        ensures
            r.wf(),
            r@ == default_model(),
    {
        let r = BrowserConfig {
            passwords: Vec::new(),
            bookmarks: Vec::new(),
            previous_tabs: Vec::new(),
            preferred_browser: String::new(),
            smooth_scrolling: false,
        };
        assert(r@.previous_tabs =~= Seq::<Seq<char>>::empty());
        r
    }
}

/// The saved passwords, by URL.
pub fn passwords(config: BrowserConfig) -> (r: Vec<(String, Credential)>)
    requires
        config.wf(),
    ensures
        keys_unique(r@),
        entries_map(r@) == config@.passwords,
{
    config.passwords
}

/// The bookmarks: a display name for each URL.
pub fn bookmarks(config: BrowserConfig) -> (r: Vec<(String, String)>)
    requires
        config.wf(),
    ensures
        keys_unique(r@),
        entries_map(r@) == config@.bookmarks,
{
    config.bookmarks
}

/// The tabs that were open last, in order.
pub fn previous_tabs(config: BrowserConfig) -> (r: Vec<String>)
    ensures
        strings_view(r@) == config@.previous_tabs,
{
    config.previous_tabs
}

/// The preferred browser; empty when none was chosen.
pub fn preferred_browser(config: BrowserConfig) -> (r: String)
    ensures
        r@ == config@.preferred_browser,
{
    config.preferred_browser
}

/// Whether smooth scrolling is on.
pub fn smooth_scrolling_enabled(config: &BrowserConfig) -> (r: bool)
    ensures
        r == config@.smooth_scrolling,
{
    config.smooth_scrolling
}

/// Saves a login for `url`, replacing any earlier one for that URL.
pub fn add_password(config: &mut BrowserConfig, url: &str, username: &str, password: &str)
    requires
        old(config).wf(),
    ensures
        final(config).wf(),
        final(config)@ == (ConfigModel {
            passwords: old(config)@.passwords.insert(url@, (username@, password@)),
            ..old(config)@
        }),
{
    let login = Credential { username: username.to_string(), password: password.to_string() };
    upsert(&mut config.passwords, url.to_string(), login);
}

/// Forgets the login for `url`; nothing changes if there is none.
pub fn remove_password(config: &mut BrowserConfig, url: &str)
    requires
        old(config).wf(),
    ensures
        final(config).wf(),
        final(config)@ == (ConfigModel {
            passwords: old(config)@.passwords.remove(url@),
            ..old(config)@
        }),
{
    remove_key(&mut config.passwords, &url.to_string());
}

/// Bookmarks `url` under the display name `name`, replacing any earlier
/// bookmark of that URL.
pub fn add_bookmark(config: &mut BrowserConfig, url: &str, name: &str)
    requires
        old(config).wf(),
    ensures
        final(config).wf(),
        final(config)@ == (ConfigModel {
            bookmarks: old(config)@.bookmarks.insert(url@, name@),
            ..old(config)@
        }),
{
    upsert(&mut config.bookmarks, url.to_string(), name.to_string());
}

/// Removes the bookmark of `url`; nothing changes if there is none.
/// Bookmarks are keyed by URL, as `add_bookmark` stores them.
pub fn remove_bookmark(config: &mut BrowserConfig, url: &str)
    requires
        old(config).wf(),
    ensures
        final(config).wf(),
        final(config)@ == (ConfigModel {
            bookmarks: old(config)@.bookmarks.remove(url@),
            ..old(config)@
        }),
{
    remove_key(&mut config.bookmarks, &url.to_string());
}

/// Replaces the whole tab list by `tabs`.
pub fn set_previous_tabs(config: &mut BrowserConfig, tabs: Vec<String>)
    requires
        old(config).wf(),
    ensures
        final(config).wf(),
        final(config)@ == (ConfigModel { previous_tabs: strings_view(tabs@), ..old(config)@ }),
{
    config.previous_tabs = tabs;
}

/// Sets the preferred browser.
pub fn set_preferred_browser(config: &mut BrowserConfig, browser: String)
    requires
        old(config).wf(),
    ensures
        final(config).wf(),
        final(config)@ == (ConfigModel { preferred_browser: browser@, ..old(config)@ }),
{
    config.preferred_browser = browser;
}

/// Turns smooth scrolling on or off.
pub fn set_smooth_scrolling(config: &mut BrowserConfig, enabled: bool)
    requires
        old(config).wf(),
    ensures
        final(config).wf(),
        final(config)@ == (ConfigModel { smooth_scrolling: enabled, ..old(config)@ }),
{
    config.smooth_scrolling = enabled;
}

} // verus!
