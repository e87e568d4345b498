//! The audit log: the admin's activity feed.

use crate::text::{opt_str_view, opt_view, own_opt};
use vstd::prelude::*;

verus! {

/// An entry of the audit log.
#[derive(Debug)]
pub struct Activity {
    pub id: i64,
    pub entity: String,
    pub entity_id: String,
    pub action: String,
    pub actor: String,
    pub detail: Option<String>,
    pub created_at: String,
}

/// An entry to append. Its number and its time come from the database.
#[derive(Debug)]
pub struct NewActivity {
    pub entity: String,
    pub entity_id: String,
    pub action: String,
    pub actor: String,
    pub detail: Option<String>,
}

/// The entry to append. The actor is the admin where none is named.
pub fn record(
    entity: &str,
    entity_id: &str,
    action: &str,
    actor: Option<&str>,
    detail: Option<&str>,
) -> (r: NewActivity)
    ensures
        r.entity@ == entity@,
        r.entity_id@ == entity_id@,
        r.action@ == action@,
        r.actor@ == match actor {
            Some(a) => a@,
            None => "admin"@,
        },
        opt_view(r.detail) == opt_str_view(detail),
{
    let actor = match actor {
        Some(a) => a,
        None => "admin",
    };
    NewActivity {
        entity: entity.to_owned(),
        entity_id: entity_id.to_owned(),
        action: action.to_owned(),
        actor: actor.to_owned(),
        detail: own_opt(detail),
    }
}

} // verus!
