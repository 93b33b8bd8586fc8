//! The config document's JSON schema: an object with the fields `passwords`
//! (URL to `[username, password]`), `bookmarks` (URL to name),
//! `previous_tabs` (a list of URLs), `preferred_browser` (a string) and
//! `smooth_scrolling` (a boolean). Other fields are ignored; a missing field
//! or one of another kind makes the whole document unreadable.

use vstd::prelude::*;
use crate::config::{default_model, strings_view, BrowserConfig, ConfigModel, Credential};
use crate::entries::{entries_map, keys_unique, upsert};
use crate::json::{bool_value, field, find_field, string_value, Json};

verus! {

/// A login as JSON: an array of exactly two strings, user name then password.
pub open spec fn credential_value(j: Json) -> Option<(Seq<char>, Seq<char>)> {
    match j {
        Json::Arr(a) => if a@.len() == 2 {
            match (string_value(a@[0]), string_value(a@[1])) {
                (Some(u), Some(p)) => Some((u, p)),
                _ => None,
            }
        } else {
            None
        },
        _ => None,
    }
}

/// The logins that an object's fields hold, keyed by field name, the last
/// field of a name counting.
pub open spec fn credential_fold(f: Seq<(String, Json)>) -> Map<Seq<char>, (Seq<char>, Seq<char>)>
    decreases f.len(),
{
    if f.len() == 0 {
        Map::empty()
    } else {
        credential_fold(f.drop_last()).insert(f.last().0@, credential_value(f.last().1)->0)
    }
}

/// An object of logins; `None` where a field's value is not a login.
pub open spec fn credential_map(f: Seq<(String, Json)>) -> Option<Map<Seq<char>, (Seq<char>, Seq<char>)>> {
    if forall|i: int| 0 <= i < f.len() ==> (#[trigger] credential_value(f[i].1)) is Some {
        Some(credential_fold(f))
    } else {
        None
    }
}

/// The strings that an object's fields hold, keyed by field name, the last
/// field of a name counting.
pub open spec fn string_fold(f: Seq<(String, Json)>) -> Map<Seq<char>, Seq<char>>
    decreases f.len(),
{
    if f.len() == 0 {
        Map::empty()
    } else {
        string_fold(f.drop_last()).insert(f.last().0@, string_value(f.last().1)->0)
    }
}

/// An object of strings; `None` where a field's value is not a string.
pub open spec fn string_map(f: Seq<(String, Json)>) -> Option<Map<Seq<char>, Seq<char>>> {
    if forall|i: int| 0 <= i < f.len() ==> (#[trigger] string_value(f[i].1)) is Some {
        Some(string_fold(f))
    } else {
        None
    }
}

/// An array of strings; `None` where an item is not a string.
pub open spec fn string_list(a: Seq<Json>) -> Option<Seq<Seq<char>>> {
    if forall|i: int| 0 <= i < a.len() ==> (#[trigger] string_value(a[i])) is Some {
        Some(a.map_values(|x: Json| string_value(x)->0))
    } else {
        None
    }
}

/// The object fields of an optional value.
pub open spec fn object_of(j: Option<Json>) -> Option<Seq<(String, Json)>> {
    match j {
        Some(Json::Obj(f)) => Some(f@),
        _ => None,
    }
}

/// The items of an optional array.
pub open spec fn array_of(j: Option<Json>) -> Option<Seq<Json>> {
    match j {
        Some(Json::Arr(a)) => Some(a@),
        _ => None,
    }
}

/// The document that a JSON value holds, or `None` where it does not fit the
/// schema.
pub open spec fn decode_config(j: Json) -> Option<ConfigModel> {
    match j {
        Json::Obj(f) => {
            let p = match object_of(field(f@, "passwords"@)) {
                Some(x) => credential_map(x),
                None => None,
            };
            let b = match object_of(field(f@, "bookmarks"@)) {
                Some(x) => string_map(x),
                None => None,
            };
            let t = match array_of(field(f@, "previous_tabs"@)) {
                Some(x) => string_list(x),
                None => None,
            };
            let pb = match field(f@, "preferred_browser"@) {
                Some(x) => string_value(x),
                None => None,
            };
            let ss = match field(f@, "smooth_scrolling"@) {
                Some(x) => bool_value(x),
                None => None,
            };
            if p is Some && b is Some && t is Some && pb is Some && ss is Some {
                Some(
                    ConfigModel {
                        passwords: p->0,
                        bookmarks: b->0,
                        previous_tabs: t->0,
                        preferred_browser: pb->0,
                        smooth_scrolling: ss->0,
                    },
                )
            } else {
                None
            }
        },
        _ => None,
    }
}

fn credential_from_json(j: &Json) -> (r: Option<Credential>)
    ensures
        match r {
            Some(c) => credential_value(*j) == Some(c@),
            None => credential_value(*j) is None,
        },
{
    match j {
        Json::Arr(a) => {
            if a.len() == 2 {
                match &a[0] {
                    Json::Str(u) => match &a[1] {
                        Json::Str(p) => Some(Credential { username: u.clone(), password: p.clone() }),
                        _ => None,
                    },
                    _ => None,
                }
            } else {
                None
            }
        },
        _ => None,
    }
}

fn credentials_from_json(f: &Vec<(String, Json)>) -> (r: Option<Vec<(String, Credential)>>)
    ensures
        match r {
            Some(v) => keys_unique(v@) && credential_map(f@) == Some(entries_map(v@)),
            None => credential_map(f@) is None,
        },
{
    let mut v: Vec<(String, Credential)> = Vec::new();
    let mut i: usize = 0;
    while i < f.len()
        invariant
            i <= f@.len(),
            keys_unique(v@),
            forall|j: int| 0 <= j < i ==> (#[trigger] credential_value(f@[j].1)) is Some,
            credential_fold(f@.take(i as int)) == entries_map(v@),
        decreases f@.len() - i,
    {
        assert(f@.take(i + 1).drop_last() =~= f@.take(i as int));
        match credential_from_json(&f[i].1) {
            Some(c) => upsert(&mut v, f[i].0.clone(), c),
            None => return None,
        }
        i = i + 1;
    }
    assert(f@.take(i as int) =~= f@);
    Some(v)
}

fn strings_from_json(f: &Vec<(String, Json)>) -> (r: Option<Vec<(String, String)>>)
    ensures
        match r {
            Some(v) => keys_unique(v@) && string_map(f@) == Some(entries_map(v@)),
            None => string_map(f@) is None,
        },
{
    let mut v: Vec<(String, String)> = Vec::new();
    let mut i: usize = 0;
    while i < f.len()
        invariant
            i <= f@.len(),
            keys_unique(v@),
            forall|j: int| 0 <= j < i ==> (#[trigger] string_value(f@[j].1)) is Some,
            string_fold(f@.take(i as int)) == entries_map(v@),
        decreases f@.len() - i,
    {
        assert(f@.take(i + 1).drop_last() =~= f@.take(i as int));
        match &f[i].1 {
            Json::Str(s) => upsert(&mut v, f[i].0.clone(), s.clone()),
            _ => {
                assert(string_value(f@[i as int].1) is None);
                return None;
            },
        }
        i = i + 1;
    }
    assert(f@.take(i as int) =~= f@);
    Some(v)
}

fn string_list_from_json(a: &Vec<Json>) -> (r: Option<Vec<String>>)
    ensures
        match r {
            Some(v) => string_list(a@) == Some(strings_view(v@)),
            None => string_list(a@) is None,
        },
{
    let mut v: Vec<String> = Vec::new();
    let mut i: usize = 0;
    while i < a.len()
        invariant
            i <= a@.len(),
            v@.len() == i,
            forall|j: int| 0 <= j < i ==> (#[trigger] string_value(a@[j])) is Some,
            forall|j: int| 0 <= j < i ==> v@[j]@ == string_value(a@[j])->0,
        decreases a@.len() - i,
    {
        match &a[i] {
            Json::Str(s) => v.push(s.clone()),
            _ => {
                assert(string_value(a@[i as int]) is None);
                return None;
            },
        }
        i = i + 1;
    }
    assert(strings_view(v@) =~= a@.map_values(|x: Json| string_value(x)->0));
    Some(v)
}

/// Why a stored document could not be read.
#[derive(Clone, Copy, Debug, PartialEq, Eq)]
pub enum ParseError {
    /// The stored text is not JSON.
    NotJson,
    /// The JSON does not fit the document's schema.
    Schema,
}

/// Reads the document out of a JSON value.
pub fn config_from_json(j: &Json) -> (r: Result<BrowserConfig, ParseError>)
    ensures
        match r {
            Ok(c) => c.wf() && decode_config(*j) == Some(c@),
            Err(e) => e == ParseError::Schema && decode_config(*j) is None,
        },
{
    let f = match j {
        Json::Obj(f) => f,
        _ => return Err(ParseError::Schema),
    };
    let passwords = match find_field(f, "passwords") {
        Some(Json::Obj(x)) => match credentials_from_json(x) {
            Some(v) => v,
            None => return Err(ParseError::Schema),
        },
        _ => return Err(ParseError::Schema),
    };
    let bookmarks = match find_field(f, "bookmarks") {
        Some(Json::Obj(x)) => match strings_from_json(x) {
            Some(v) => v,
            None => return Err(ParseError::Schema),
        },
        _ => return Err(ParseError::Schema),
    };
    let previous_tabs = match find_field(f, "previous_tabs") {
        Some(Json::Arr(x)) => match string_list_from_json(x) {
            Some(v) => v,
            None => return Err(ParseError::Schema),
        },
        _ => return Err(ParseError::Schema),
    };
    let preferred_browser = match find_field(f, "preferred_browser") {
        Some(Json::Str(s)) => s.clone(),
        _ => return Err(ParseError::Schema),
    };
    let smooth_scrolling = match find_field(f, "smooth_scrolling") {
        Some(Json::Bool(b)) => *b,
        _ => return Err(ParseError::Schema),
    };
    Ok(BrowserConfig { passwords, bookmarks, previous_tabs, preferred_browser, smooth_scrolling })
}

/// `e` holds the logins of `s`, in order, each as `[username, password]`.
pub open spec fn encodes_credentials(e: Seq<(String, Json)>, s: Seq<(String, Credential)>) -> bool {
    &&& e.len() == s.len()
    &&& forall|i: int|
        0 <= i < s.len() ==> (#[trigger] e[i]).0@ == s[i].0@ && credential_value(e[i].1) == Some(
            s[i].1@,
        )
}

/// `e` holds the strings of `s`, in order.
pub open spec fn encodes_strings(e: Seq<(String, Json)>, s: Seq<(String, String)>) -> bool {
    &&& e.len() == s.len()
    &&& forall|i: int|
        0 <= i < s.len() ==> (#[trigger] e[i]).0@ == s[i].0@ && string_value(e[i].1) == Some(
            s[i].1@,
        )
}

/// `a` holds the strings of `s`, in order.
pub open spec fn encodes_list(a: Seq<Json>, s: Seq<String>) -> bool {
    &&& a.len() == s.len()
    &&& forall|i: int| 0 <= i < s.len() ==> string_value(#[trigger] a[i]) == Some(s[i]@)
}

/// `j` is the JSON form of `c`: an object with the five fields in schema
/// order, the entries and tabs in the order `c` holds them.
pub open spec fn encodes_config(j: Json, c: BrowserConfig) -> bool {
    match j {
        Json::Obj(f) => {
            &&& f@.len() == 5
            &&& f@[0].0@ == "passwords"@
            &&& f@[1].0@ == "bookmarks"@
            &&& f@[2].0@ == "previous_tabs"@
            &&& f@[3].0@ == "preferred_browser"@
            &&& f@[4].0@ == "smooth_scrolling"@
            &&& match f@[0].1 {
                Json::Obj(e) => encodes_credentials(e@, c.passwords@),
                _ => false,
            }
            &&& match f@[1].1 {
                Json::Obj(e) => encodes_strings(e@, c.bookmarks@),
                _ => false,
            }
            &&& match f@[2].1 {
                Json::Arr(a) => encodes_list(a@, c.previous_tabs@),
                _ => false,
            }
            &&& string_value(f@[3].1) == Some(c.preferred_browser@)
            &&& bool_value(f@[4].1) == Some(c.smooth_scrolling)
        },
        _ => false,
    }
}

proof fn lemma_credential_fold(e: Seq<(String, Json)>, s: Seq<(String, Credential)>)
    requires
        encodes_credentials(e, s),
    ensures
        credential_map(e) == Some(entries_map(s)),
    decreases s.len(),
{
    assert forall|i: int| 0 <= i < e.len() implies (#[trigger] credential_value(e[i].1)) is Some by {
        assert(e[i].0@ == s[i].0@);
    }
    if s.len() > 0 {
        let (e2, s2) = (e.drop_last(), s.drop_last());
        assert forall|i: int| 0 <= i < s2.len() implies (#[trigger] e2[i]).0@ == s2[i].0@
            && credential_value(e2[i].1) == Some(s2[i].1@) by {
            assert(e2[i] == e[i]);
        }
        lemma_credential_fold(e2, s2);
        assert(e[e.len() - 1].0@ == s[s.len() - 1].0@);
    }
}

proof fn lemma_string_fold(e: Seq<(String, Json)>, s: Seq<(String, String)>)
    requires
        encodes_strings(e, s),
    ensures
        string_map(e) == Some(entries_map(s)),
    decreases s.len(),
{
    assert forall|i: int| 0 <= i < e.len() implies (#[trigger] string_value(e[i].1)) is Some by {
        assert(e[i].0@ == s[i].0@);
    }
    if s.len() > 0 {
        let (e2, s2) = (e.drop_last(), s.drop_last());
        assert forall|i: int| 0 <= i < s2.len() implies (#[trigger] e2[i]).0@ == s2[i].0@
            && string_value(e2[i].1) == Some(s2[i].1@) by {
            assert(e2[i] == e[i]);
        }
        lemma_string_fold(e2, s2);
        assert(e[e.len() - 1].0@ == s[s.len() - 1].0@);
    }
}

/// Reading back the JSON form of a document gives the same document.
pub proof fn lemma_round_trip(c: BrowserConfig, j: Json)
    requires
        encodes_config(j, c),
    ensures
        decode_config(j) == Some(c@),
{
    reveal_strlit("passwords");
    reveal_strlit("bookmarks");
    reveal_strlit("previous_tabs");
    reveal_strlit("preferred_browser");
    reveal_strlit("smooth_scrolling");
    reveal_with_fuel(field, 6);
    let f = match j {
        Json::Obj(f) => f@,
        _ => Seq::empty(),
    };
    assert(f.drop_last().drop_last().drop_last().drop_last() =~= seq![f[0]]);
    assert(f.drop_last().drop_last().drop_last() =~= seq![f[0], f[1]]);
    assert(f.drop_last().drop_last() =~= seq![f[0], f[1], f[2]]);
    assert(f.drop_last() =~= seq![f[0], f[1], f[2], f[3]]);
    assert("passwords"@[0] != "bookmarks"@[0]);
    assert("previous_tabs"@[3] != "preferred_browser"@[3]);
    assert(field(f, "passwords"@) == Some(f[0].1));
    assert(field(f, "bookmarks"@) == Some(f[1].1));
    assert(field(f, "previous_tabs"@) == Some(f[2].1));
    assert(field(f, "preferred_browser"@) == Some(f[3].1));
    assert(field(f, "smooth_scrolling"@) == Some(f[4].1));
    match f[0].1 {
        Json::Obj(e) => lemma_credential_fold(e@, c.passwords@),
        _ => {},
    }
    match f[1].1 {
        Json::Obj(e) => lemma_string_fold(e@, c.bookmarks@),
        _ => {},
    }
    match f[2].1 {
        Json::Arr(a) => {
            assert(a@.map_values(|x: Json| string_value(x)->0) =~= strings_view(c.previous_tabs@));
        },
        _ => {},
    }
}

fn credentials_to_json(s: &Vec<(String, Credential)>) -> (r: Vec<(String, Json)>)
    ensures
        encodes_credentials(r@, s@),
{
    let mut r: Vec<(String, Json)> = Vec::new();
    let mut i: usize = 0;
    while i < s.len()
        invariant
            i <= s@.len(),
            r@.len() == i,
            forall|k: int|
                0 <= k < i ==> (#[trigger] r@[k]).0@ == s@[k].0@ && credential_value(r@[k].1)
                    == Some(s@[k].1@),
        decreases s@.len() - i,
    {
        let mut pair: Vec<Json> = Vec::new();
        pair.push(Json::Str(s[i].1.username.clone()));
        pair.push(Json::Str(s[i].1.password.clone()));
        r.push((s[i].0.clone(), Json::Arr(pair)));
        i = i + 1;
    }
    r
}

fn strings_to_json(s: &Vec<(String, String)>) -> (r: Vec<(String, Json)>)
    ensures
        encodes_strings(r@, s@),
{
    let mut r: Vec<(String, Json)> = Vec::new();
    let mut i: usize = 0;
    while i < s.len()
        invariant
            i <= s@.len(),
            r@.len() == i,
            forall|k: int|
                0 <= k < i ==> (#[trigger] r@[k]).0@ == s@[k].0@ && string_value(r@[k].1)
                    == Some(s@[k].1@),
        decreases s@.len() - i,
    {
        r.push((s[i].0.clone(), Json::Str(s[i].1.clone())));
        i = i + 1;
    }
    r
}

fn list_to_json(s: &Vec<String>) -> (r: Vec<Json>)
    ensures
        encodes_list(r@, s@),
{
    let mut r: Vec<Json> = Vec::new();
    let mut i: usize = 0;
    while i < s.len()
        invariant
            i <= s@.len(),
            r@.len() == i,
            forall|k: int| 0 <= k < i ==> string_value(#[trigger] r@[k]) == Some(s@[k]@),
        decreases s@.len() - i,
    {
        r.push(Json::Str(s[i].clone()));
        i = i + 1;
    }
    r
}

/// The JSON form of a document, which reads back as the same document.
pub fn config_to_json(c: &BrowserConfig) -> (j: Json)
    ensures
        encodes_config(j, *c),
        decode_config(j) == Some(c@),
{
    let mut f: Vec<(String, Json)> = Vec::new();
    f.push(("passwords".to_string(), Json::Obj(credentials_to_json(&c.passwords))));
    f.push(("bookmarks".to_string(), Json::Obj(strings_to_json(&c.bookmarks))));
    f.push(("previous_tabs".to_string(), Json::Arr(list_to_json(&c.previous_tabs))));
    f.push(("preferred_browser".to_string(), Json::Str(c.preferred_browser.clone())));
    f.push(("smooth_scrolling".to_string(), Json::Bool(c.smooth_scrolling)));
    let j = Json::Obj(f);
    proof {
        lemma_round_trip(*c, j);
    }
    j
}

/// The document that loading gives: what the stored value holds where it is
/// JSON that fits the schema, else the default document.
pub open spec fn load_model(stored: Option<Json>) -> ConfigModel {
    match stored {
        Some(j) => match decode_config(j) {
            Some(m) => m,
            None => default_model(),
        },
        None => default_model(),
    }
}

/// Reads the document out of what is stored: `None` stands for text that is
/// not JSON.
pub fn parse_config(stored: &Option<Json>) -> (r: Result<BrowserConfig, ParseError>)
    ensures
        match stored {
            None => r == Err::<BrowserConfig, ParseError>(ParseError::NotJson),
            Some(j) => match r {
                Ok(c) => c.wf() && decode_config(*j) == Some(c@),
                Err(e) => e == ParseError::Schema && decode_config(*j) is None,
            },
        },
{
    match stored {
        Some(j) => config_from_json(j),
        None => Err(ParseError::NotJson),
    }
}

/// Heals a failed read: any error gives the default document.
pub fn heal(parsed: Result<BrowserConfig, ParseError>) -> (r: BrowserConfig)
    requires
        parsed matches Ok(c) ==> c.wf(),
    ensures
        r.wf(),
        r@ == match parsed {
            Ok(c) => c@,
            Err(_) => default_model(),
        },
{
    match parsed {
        Ok(c) => c,
        Err(_) => BrowserConfig::default(),
    }
}

/// Loads the document from what is stored, healing a value that is not JSON
/// or does not fit the schema to the default document.
pub fn load_config(stored: &Option<Json>) -> (r: BrowserConfig)
    ensures
        r.wf(),
        r@ == load_model(*stored),
{
    heal(parse_config(stored))
}

/// Loading never fails: a value that is not JSON, or JSON that does not fit
/// the schema, loads as the default document.
pub proof fn lemma_healing(j: Json)
    ensures
        load_model(None) == default_model(),
        decode_config(j) is None ==> load_model(Some(j)) == default_model(),
{
}

/// Where the file is missing, loading first writes the default document and
/// reads that back; so this load, and every later load with no save between,
/// gives the default document.
pub proof fn lemma_load_missing(d: BrowserConfig, written: Json)
    requires
        d@ == default_model(),
        encodes_config(written, d),
    ensures
        load_model(Some(written)) == default_model(),
{
    lemma_round_trip(d, written);
}

} // verus!
