//! Named periods relative to a reference date.
use vstd::prelude::*;

use crate::error::SuaideError;
use crate::text::str_eq;

verus! {

#[derive(Debug, Clone, Copy, PartialEq, Eq, Hash, Structural)]
pub enum Timeframe {
    Today,
    Yesterday,
    Week,
    LastWeek,
    Month,
}

/// The timeframe named by one of the accepted words, if any.
pub open spec fn timeframe_named(s: Seq<char>) -> Option<Timeframe> {
    if s == "today"@ {
        Some(Timeframe::Today)
    } else if s == "yesterday"@ {
        Some(Timeframe::Yesterday)
    } else if s == "week"@ {
        Some(Timeframe::Week)
    } else if s == "lastweek"@ || s == "last-week"@ {
        Some(Timeframe::LastWeek)
    } else if s == "month"@ {
        Some(Timeframe::Month)
    } else {
        None
    }
}

impl Timeframe {
    /// Reads a timeframe from its name (`today`, `yesterday`, `week`,
    /// `lastweek` or `last-week`, `month`); any other word is `IncorrectArgs`.
    pub fn parse(s: &str) -> (r: Result<Timeframe, SuaideError>)
        ensures
            r == (match timeframe_named(s@) {
                Some(t) => Ok(t),
                None => Err(SuaideError::IncorrectArgs),
            }),
    {
        if str_eq(s, "today") {
            Ok(Timeframe::Today)
        } else if str_eq(s, "yesterday") {
            Ok(Timeframe::Yesterday)
        } else if str_eq(s, "week") {
            Ok(Timeframe::Week)
        } else if str_eq(s, "lastweek") || str_eq(s, "last-week") {
            Ok(Timeframe::LastWeek)
        } else if str_eq(s, "month") {
            Ok(Timeframe::Month)
        } else {
            Err(SuaideError::IncorrectArgs)
        }
    }
}

} // verus!
