use ibrowse::{
    add_bookmark, add_password, bookmarks, passwords, preferred_browser, previous_tabs,
    remove_bookmark, remove_password, set_preferred_browser, set_previous_tabs,
    set_smooth_scrolling, smooth_scrolling_enabled, BrowserConfig, Credential,
};

fn login(user: &str, pass: &str) -> Credential {
    Credential { username: user.to_string(), password: pass.to_string() }
}

#[test]
fn default_document_is_empty() {
    let c = BrowserConfig::default();
    assert!(c.passwords.is_empty());
    assert!(c.bookmarks.is_empty());
    assert!(c.previous_tabs.is_empty());
    assert_eq!(c.preferred_browser, "");
    assert!(!c.smooth_scrolling);
}

#[test]
fn add_password_then_get() {
    let mut c = BrowserConfig::default();
    add_password(&mut c, "http://a.com", "u", "p");
    let got = passwords(c);
    assert_eq!(got, vec![("http://a.com".to_string(), login("u", "p"))]);
}

#[test]
fn add_password_twice_overwrites() {
    let mut c = BrowserConfig::default();
    add_password(&mut c, "http://a.com", "u", "p");
    add_password(&mut c, "http://a.com", "u", "q");
    let got = passwords(c);
    assert_eq!(got, vec![("http://a.com".to_string(), login("u", "q"))]);
}

#[test]
fn add_password_keeps_other_urls() {
    let mut c = BrowserConfig::default();
    add_password(&mut c, "http://a.com", "u", "p");
    add_password(&mut c, "http://b.com", "v", "w");
    add_password(&mut c, "http://a.com", "x", "y");
    let got = passwords(c);
    assert_eq!(got.len(), 2);
    assert!(got.contains(&("http://a.com".to_string(), login("x", "y"))));
    assert!(got.contains(&("http://b.com".to_string(), login("v", "w"))));
}

#[test]
fn remove_password_present_and_absent() {
    let mut c = BrowserConfig::default();
    add_password(&mut c, "http://a.com", "u", "p");
    add_password(&mut c, "http://b.com", "v", "w");
    remove_password(&mut c, "http://a.com");
    remove_password(&mut c, "http://zzz.com");
    let got = passwords(c);
    assert_eq!(got, vec![("http://b.com".to_string(), login("v", "w"))]);
}

#[test]
fn remove_missing_bookmark_is_noop() {
    let mut c = BrowserConfig::default();
    remove_bookmark(&mut c, "nonexistent");
    assert!(bookmarks(c).is_empty());
}

#[test]
fn bookmarks_add_overwrite_remove_by_url() {
    let mut c = BrowserConfig::default();
    add_bookmark(&mut c, "http://a.com", "A");
    add_bookmark(&mut c, "http://b.com", "B");
    add_bookmark(&mut c, "http://a.com", "A2");
    remove_bookmark(&mut c, "B");
    assert_eq!(c.bookmarks.len(), 2);
    remove_bookmark(&mut c, "http://b.com");
    let got = bookmarks(c);
    assert_eq!(got, vec![("http://a.com".to_string(), "A2".to_string())]);
}

#[test]
fn previous_tabs_are_replaced_whole() {
    let mut c = BrowserConfig::default();
    set_previous_tabs(&mut c, vec!["a".to_string(), "b".to_string()]);
    set_previous_tabs(&mut c, vec!["c".to_string()]);
    assert_eq!(previous_tabs(c), vec!["c".to_string()]);
}

#[test]
fn previous_tabs_keep_order_and_duplicates() {
    let mut c = BrowserConfig::default();
    let tabs = vec!["b".to_string(), "a".to_string(), "b".to_string()];
    set_previous_tabs(&mut c, tabs.clone());
    assert_eq!(previous_tabs(c), tabs);
}

#[test]
fn preferences_are_set() {
    let mut c = BrowserConfig::default();
    set_preferred_browser(&mut c, "firefox".to_string());
    set_smooth_scrolling(&mut c, true);
    assert!(smooth_scrolling_enabled(&c));
    set_smooth_scrolling(&mut c, false);
    assert!(!smooth_scrolling_enabled(&c));
    assert_eq!(preferred_browser(c), "firefox");
}

#[test]
fn one_change_leaves_other_fields() {
    let mut c = BrowserConfig::default();
    add_bookmark(&mut c, "http://a.com", "A");
    set_preferred_browser(&mut c, "chrome".to_string());
    add_password(&mut c, "http://a.com", "u", "p");
    assert_eq!(c.bookmarks, vec![("http://a.com".to_string(), "A".to_string())]);
    assert_eq!(c.preferred_browser, "chrome");
    assert!(c.previous_tabs.is_empty());
}
