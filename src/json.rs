//! A JSON value, as the config document's schema reads it.

use vstd::prelude::*;

verus! {

/// A JSON value. Numbers keep no value: no field of the config document is a
/// number, so a number only ever has to be told apart from the other kinds.
pub enum Json {
    Null,
    Bool(bool),
    Num,
    Str(String),
    Arr(Vec<Json>),
    Obj(Vec<(String, Json)>),
}

/// The value of `key` among an object's fields. Where a key repeats, its
/// last occurrence counts.
pub open spec fn field(fields: Seq<(String, Json)>, key: Seq<char>) -> Option<Json>
    decreases fields.len(),
{
    if fields.len() == 0 {
        None
    } else if fields.last().0@ == key {
        Some(fields.last().1)
    } else {
        field(fields.drop_last(), key)
    }
}

/// The text of a JSON string.
pub open spec fn string_value(j: Json) -> Option<Seq<char>> {
    match j {
        Json::Str(s) => Some(s@),
        _ => None,
    }
}

/// The value of a JSON boolean.
pub open spec fn bool_value(j: Json) -> Option<bool> {
    match j {
        Json::Bool(b) => Some(b),
        _ => None,
    }
}

/// The value of `key` in an object's fields, by reference.
pub fn find_field<'a>(fields: &'a Vec<(String, Json)>, key: &str) -> (r: Option<&'a Json>)
    ensures
        field(fields@, key@) == match r {
            Some(x) => Some(*x),
            None => None::<Json>,
        },
{
    let k = key.to_string();
    let mut found: Option<usize> = None;
    let mut i: usize = 0;
    while i < fields.len()
        invariant
            i <= fields@.len(),
            k@ == key@,
            match found {
                Some(j) => j < i && field(fields@.take(i as int), key@) == Some(fields@[j as int].1),
                None => field(fields@.take(i as int), key@) is None,
            },
        decreases fields@.len() - i,
    {
        assert(fields@.take(i + 1).drop_last() =~= fields@.take(i as int));
        if fields[i].0 == k {
            found = Some(i);
        }
        i = i + 1;
    }
    assert(fields@.take(i as int) =~= fields@);
    match found {
        Some(j) => Some(&fields[j].1),
        None => None,
    }
}

} // verus!
