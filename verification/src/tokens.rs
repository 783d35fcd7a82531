//! The access-token store: the dedicated token file is preferred; a
//! token still sitting in the configuration document is migrated out of
//! it on read, so future reads need not repeat the fallback. A crash
//! between the two writes leaves the token present in both places,
//! which the same read rule detects and retries.

use vstd::prelude::*;
use crate::models::AppConfig;
use crate::text::{spec_trim, string_to_chars, trim_chars, chars_to_string};

verus! {

/// The token a dedicated-file slot yields: the trimmed value when it
/// is non-blank, nothing otherwise.
pub open spec fn token_of_slot(slot: Option<Seq<char>>) -> Option<Seq<char>> {
    match slot {
        Some(t) => if spec_trim(t).len() > 0 {
            Some(spec_trim(t))
        } else {
            None
        },
        None => None,
    }
}

/// Validates the token slot read from the dedicated file.
pub fn token_from_file_slot(slot: &Option<String>) -> (r: Option<String>)
    ensures
        r.deep_view() == token_of_slot(slot.deep_view()),
{
    match slot {
        None => None,
        Some(t) => {
            let chars = string_to_chars(t.as_str());
            let trimmed = trim_chars(&chars);
            if trimmed.len() > 0 {
                Some(chars_to_string(&trimmed))
            } else {
                None
            }
        },
    }
}

/// Resolves the token from both representations: the dedicated file
/// wins; a token found only in the configuration is returned and the
/// configuration is cleared, and the returned flag tells the caller to
/// persist both documents so the fallback never repeats.
pub fn resolve_token(file_token: Option<String>, cfg: &mut AppConfig) -> (r: (
    Option<String>,
    bool,
))
    ensures
        file_token is Some ==> r.0 == file_token && r.1 == false && final(cfg)@ == old(cfg)@,
        file_token is None ==> match old(cfg)@ {
            Some(t) => r.0.deep_view() == Some(t) && r.1 == true && final(cfg)@ is None,
            None => r.0 is None && r.1 == false && final(cfg)@ == old(cfg)@,
        },
{
    match file_token {
        Some(t) => (Some(t), false),
        None => {
            match &cfg.access_token {
                Some(t) => {
                    let tok = t.clone();
                    cfg.access_token = None;
                    (Some(tok), true)
                },
                None => (None, false),
            }
        },
    }
}

/// The slot the token file is saved with: a blank token clears the
/// slot, anything else is stored as given.
pub open spec fn slot_for_save(token: Seq<char>) -> Option<Seq<char>> {
    if spec_trim(token).len() == 0 {
        None
    } else {
        Some(token)
    }
}

/// Builds the slot the token file is saved with.
pub fn token_slot_for_save(token: &String) -> (r: Option<String>)
    ensures
        r.deep_view() == slot_for_save(token@),
{
    let chars = string_to_chars(token.as_str());
    let trimmed = trim_chars(&chars);
    if trimmed.len() == 0 {
        None
    } else {
        Some(token.clone())
    }
}

} // verus!
