//! The stored settings and where the API token comes from.

use vstd::prelude::*;

use crate::text::{chars_of, opt_seq, string_of, trim, trim_chars};

verus! {

/// What `rlwy login` stores.
pub struct Config {
    pub token: Option<String>,
}

impl Default for Config {
    fn default() -> (c: Config)
        ensures
            c.token is None,
    {
        Config { token: None }
    }
}

/// The token the environment supplies: `RLWY_TOKEN`, else `RAILWAY_TOKEN`,
/// each trimmed and only if it is not blank.
pub open spec fn env_token_text(rlwy: Option<Seq<char>>, railway: Option<Seq<char>>) -> Option<
    Seq<char>,
> {
    match rlwy {
        Some(t) if trim(t).len() > 0 => Some(trim(t)),
        _ => match railway {
            Some(t) if trim(t).len() > 0 => Some(trim(t)),
            _ => None,
        },
    }
}

/// The token from the values of `RLWY_TOKEN` and `RAILWAY_TOKEN`; `None`
/// sends the lookup on to the stored configuration.
pub fn token_from_env(rlwy: Option<&str>, railway: Option<&str>) -> (r: Option<String>)
    ensures
        r matches Some(t) ==> env_token_text(opt_seq(rlwy), opt_seq(railway)) == Some(t@),
        r is None <==> env_token_text(opt_seq(rlwy), opt_seq(railway)) is None,
{
    match rlwy {
        Some(t) => {
            let tc = chars_of(t);
            let tt = trim_chars(tc.as_slice());
            if tt.len() > 0 {
                return Some(string_of(tt.as_slice()));
            }
        },
        None => {},
    }
    match railway {
        Some(t) => {
            let tc = chars_of(t);
            let tt = trim_chars(tc.as_slice());
            if tt.len() > 0 {
                return Some(string_of(tt.as_slice()));
            }
        },
        None => {},
    }
    None
}

/// A token given on the command line, trimmed; `None` when it is blank.
pub fn login_token(given: &str) -> (r: Option<String>)
    ensures
        r matches Some(t) ==> t@ == trim(given@) && t@.len() > 0,
        r is None <==> trim(given@).len() == 0,
{
    let gc = chars_of(given);
    let t = trim_chars(gc.as_slice());
    if t.len() > 0 {
        Some(string_of(t.as_slice()))
    } else {
        None
    }
}

/// `RLWY_TOKEN` wins over `RAILWAY_TOKEN`; a blank variable counts as unset.
pub proof fn token_precedence_law(rlwy: Seq<char>, railway: Option<Seq<char>>)
    ensures
        trim(rlwy).len() > 0 ==> env_token_text(Some(rlwy), railway) == Some(trim(rlwy)),
        trim(rlwy).len() == 0 ==> env_token_text(Some(rlwy), railway) == env_token_text(
            None,
            railway,
        ),
{
}

} // verus!
