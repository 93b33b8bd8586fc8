//! A local store for a browser's user data: saved passwords, bookmarks, the
//! tabs that were open last, a preferred browser and a smooth-scrolling flag,
//! kept together as one JSON document.
//!
//! The document model, the changes each accessor makes to it, its JSON schema
//! and the rule that heals a missing or unreadable document are verified here.
//! Reading and writing the file itself is left to the caller.

mod entries;

pub use entries::{entries_map, find_key, keys_unique, remove_key, upsert};

mod config;

pub use config::{
    add_bookmark, add_password, bookmarks, default_model, passwords, preferred_browser,
    previous_tabs, remove_bookmark, remove_password, set_preferred_browser, set_previous_tabs,
    set_smooth_scrolling, smooth_scrolling_enabled, strings_view, BrowserConfig, ConfigModel,
    Credential,
};

mod json;

pub use json::{bool_value, field, find_field, string_value, Json};

mod codec;

pub use codec::{
    array_of, config_from_json, config_to_json, credential_fold, credential_map, credential_value,
    decode_config, encodes_config, encodes_credentials, encodes_list, encodes_strings, heal,
    lemma_healing, lemma_load_missing, lemma_round_trip, load_config, load_model, object_of,
    parse_config, string_fold, string_list, string_map, ParseError,
};
