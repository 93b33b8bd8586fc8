use ibrowse::{
    add_bookmark, add_password, config_from_json, config_to_json, heal, load_config,
    parse_config, set_preferred_browser, set_previous_tabs, set_smooth_scrolling, BrowserConfig,
    Credential, Json, ParseError,
};

fn s(t: &str) -> Json {
    Json::Str(t.to_string())
}

fn obj(fields: Vec<(&str, Json)>) -> Json {
    Json::Obj(fields.into_iter().map(|(k, v)| (k.to_string(), v)).collect())
}

fn sample() -> BrowserConfig {
    let mut c = BrowserConfig::default();
    add_password(&mut c, "http://a.com", "u", "p");
    add_password(&mut c, "http://b.com", "v", "w");
    add_bookmark(&mut c, "http://a.com", "A");
    set_previous_tabs(&mut c, vec!["x".to_string(), "y".to_string(), "x".to_string()]);
    set_preferred_browser(&mut c, "firefox".to_string());
    set_smooth_scrolling(&mut c, true);
    c
}

fn sample_json() -> Json {
    obj(vec![
        ("passwords", obj(vec![("http://a.com", Json::Arr(vec![s("u"), s("p")]))])),
        ("bookmarks", obj(vec![("http://a.com", s("A"))])),
        ("previous_tabs", Json::Arr(vec![s("x"), s("y")])),
        ("preferred_browser", s("firefox")),
        ("smooth_scrolling", Json::Bool(true)),
    ])
}

#[test]
fn round_trip_sample() {
    let c = sample();
    let j = config_to_json(&c);
    assert_eq!(config_from_json(&j), Ok(c));
}

#[test]
fn round_trip_default() {
    let c = BrowserConfig::default();
    assert_eq!(config_from_json(&config_to_json(&c)), Ok(BrowserConfig::default()));
}

#[test]
fn encoding_shape() {
    let mut c = BrowserConfig::default();
    add_password(&mut c, "http://a.com", "u", "p");
    let j = config_to_json(&c);
    let Json::Obj(f) = j else { panic!("not an object") };
    let names: Vec<&str> = f.iter().map(|(k, _)| k.as_str()).collect();
    assert_eq!(
        names,
        vec!["passwords", "bookmarks", "previous_tabs", "preferred_browser", "smooth_scrolling"]
    );
    let Json::Obj(p) = &f[0].1 else { panic!("passwords not an object") };
    assert_eq!(p.len(), 1);
    assert_eq!(p[0].0, "http://a.com");
    let Json::Arr(pair) = &p[0].1 else { panic!("login not an array") };
    assert!(matches!(&pair[..], [Json::Str(u), Json::Str(w)] if u == "u" && w == "p"));
    assert!(matches!(&f[4].1, Json::Bool(false)));
}

#[test]
fn decode_sample() {
    let c = config_from_json(&sample_json()).unwrap();
    assert_eq!(
        c.passwords,
        vec![(
            "http://a.com".to_string(),
            Credential { username: "u".to_string(), password: "p".to_string() }
        )]
    );
    assert_eq!(c.bookmarks, vec![("http://a.com".to_string(), "A".to_string())]);
    assert_eq!(c.previous_tabs, vec!["x".to_string(), "y".to_string()]);
    assert_eq!(c.preferred_browser, "firefox");
    assert!(c.smooth_scrolling);
}

#[test]
fn decode_ignores_unknown_fields() {
    let Json::Obj(mut f) = sample_json() else { panic!() };
    f.insert(0, ("zoom".to_string(), Json::Num));
    let c = config_from_json(&Json::Obj(f)).unwrap();
    assert_eq!(c.preferred_browser, "firefox");
}

#[test]
fn decode_repeated_key_last_wins() {
    let j = obj(vec![
        (
            "passwords",
            obj(vec![
                ("http://a.com", Json::Arr(vec![s("u"), s("p")])),
                ("http://a.com", Json::Arr(vec![s("u"), s("q")])),
            ]),
        ),
        ("bookmarks", obj(vec![])),
        ("previous_tabs", Json::Arr(vec![])),
        ("preferred_browser", s("old")),
        ("smooth_scrolling", Json::Bool(false)),
        ("preferred_browser", s("new")),
    ]);
    let c = config_from_json(&j).unwrap();
    assert_eq!(c.passwords.len(), 1);
    assert_eq!(c.passwords[0].1.password, "q");
    assert_eq!(c.preferred_browser, "new");
}

#[test]
fn decode_missing_field_fails() {
    let Json::Obj(mut f) = sample_json() else { panic!() };
    f.remove(4);
    assert_eq!(config_from_json(&Json::Obj(f)), Err(ParseError::Schema));
}

#[test]
fn decode_wrong_kinds_fail() {
    assert_eq!(config_from_json(&Json::Null), Err(ParseError::Schema));
    assert_eq!(config_from_json(&Json::Arr(vec![])), Err(ParseError::Schema));
    let Json::Obj(mut f) = sample_json() else { panic!() };
    f[4].1 = s("yes");
    assert_eq!(config_from_json(&Json::Obj(f)), Err(ParseError::Schema));
    let Json::Obj(mut f) = sample_json() else { panic!() };
    f[2].1 = Json::Arr(vec![s("x"), Json::Num]);
    assert_eq!(config_from_json(&Json::Obj(f)), Err(ParseError::Schema));
}

#[test]
fn decode_login_needs_two_strings() {
    for bad in [
        Json::Arr(vec![s("u")]),
        Json::Arr(vec![s("u"), s("p"), s("x")]),
        Json::Arr(vec![s("u"), Json::Null]),
        s("u"),
    ] {
        let Json::Obj(mut f) = sample_json() else { panic!() };
        f[0].1 = obj(vec![("http://a.com", bad)]);
        assert_eq!(config_from_json(&Json::Obj(f)), Err(ParseError::Schema));
    }
}

#[test]
fn parse_not_json() {
    assert_eq!(parse_config(&None), Err(ParseError::NotJson));
}

#[test]
fn load_heals_not_json() {
    assert_eq!(load_config(&None), BrowserConfig::default());
}

#[test]
fn load_heals_schema_mismatch() {
    assert_eq!(load_config(&Some(obj(vec![("passwords", Json::Null)]))), BrowserConfig::default());
}

#[test]
fn load_missing_file_reads_written_default() {
    let written = config_to_json(&BrowserConfig::default());
    let first = load_config(&Some(written));
    let again = load_config(&Some(config_to_json(&BrowserConfig::default())));
    assert_eq!(first, BrowserConfig::default());
    assert_eq!(first, again);
}

#[test]
fn load_reads_stored_document() {
    let stored = Some(config_to_json(&sample()));
    let a = load_config(&stored);
    let b = load_config(&stored);
    assert_eq!(a, sample());
    assert_eq!(a, b);
}

#[test]
fn heal_keeps_ok_and_defaults_err() {
    assert_eq!(heal(Ok(sample())), sample());
    assert_eq!(heal(Err(ParseError::Schema)), BrowserConfig::default());
    assert_eq!(heal(Err(ParseError::NotJson)), BrowserConfig::default());
}
