//! Who a token belongs to.

use vstd::prelude::*;

use crate::model::Me;
use crate::text::{decimal, push_decimal, push_str, string_of};

verus! {

/// How an account is named: its email, else its name, else its id.
pub open spec fn identity_text(me: Me) -> Seq<char> {
    match me.email {
        Some(e) => e@,
        None => match me.name {
            Some(n) => n@,
            None => me.id@,
        },
    }
}

/// The name shown for the account a token belongs to.
pub fn identity_label(me: &Me) -> (r: String)
    ensures
        r@ == identity_text(*me),
{
    match &me.email {
        Some(e) => e.clone(),
        None => match &me.name {
            Some(n) => n.clone(),
            None => me.id.clone(),
        },
    }
}

/// What a team or project token, which has no account, is shown as.
pub fn team_token_label(projects: usize) -> (r: String)
    ensures
        r@ == "team token · "@ + decimal(projects as nat) + " projects visible"@,
{
    let mut v: Vec<char> = Vec::new();
    push_str(&mut v, "team token · ");
    push_decimal(&mut v, projects);
    push_str(&mut v, " projects visible");
    string_of(v.as_slice())
}

} // verus!
