//! Process-wide configuration: where the tasks are kept and the prefix that
//! ticket identifiers carry.
use vstd::prelude::*;
use vstd::string::StringExecFns;

use crate::text::{has_prefix, opt_view};

verus! {

pub struct Settings {
    pub db_url: String,
    pub ticket_prefix: String,
}

/// The ticket that a user-given identifier stands for: the identifier itself
/// if it already starts with the prefix, else the prefix followed by it.
pub open spec fn qualified_ticket(prefix: Seq<char>, t: Seq<char>) -> Seq<char> {
    if prefix.is_prefix_of(t) {
        t
    } else {
        prefix + t
    }
}

impl Settings {
    /// The ticket prefix followed by `ticket`.
    pub fn generate_ticket_id(&self, ticket: String) -> (r: String)
        ensures
            r@ == self.ticket_prefix@ + ticket@,
    {
        self.ticket_prefix.clone().concat(ticket.as_str())
    }

    /// The ticket that an optional user-given identifier stands for (see
    /// `qualified_ticket`).
    pub fn qualify_ticket(&self, ticket: Option<String>) -> (r: Option<String>)
        ensures
            opt_view(&r) == (match ticket {
                Some(t) => Some(qualified_ticket(self.ticket_prefix@, t@)),
                None => None,
            }),
    {
        match ticket {
            Some(t) => {
                if has_prefix(t.as_str(), self.ticket_prefix.as_str()) {
                    Some(t)
                } else {
                    Some(self.generate_ticket_id(t))
                }
            },
            None => None,
        }
    }
}

} // verus!
