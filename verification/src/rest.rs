//! The system manager's HTTP query facade: which read a request path asks
//! for.  Paths are `/systems` for the whole registry and
//! `/system/{name}` for one record; anything else is invalid.

use vstd::prelude::*;
use vstd::string::*;

use crate::text::{contains_str, spec_contains, spec_split, split_str, str_eq};

verus! {

/// The read an HTTP request path asks for.
#[derive(Debug, PartialEq)]
pub enum QueryOperation {
    GetSystem(String),
    GetAllSystems,
    NotValid,
}

/// Spec-level image of a [`QueryOperation`].
pub ghost enum QueryOpV {
    GetSystem(Seq<char>),
    GetAllSystems,
    NotValid,
}

impl View for QueryOperation {
    type V = QueryOpV;

    open spec fn view(&self) -> QueryOpV {
        match self {
            QueryOperation::GetSystem(s) => QueryOpV::GetSystem(s@),
            QueryOperation::GetAllSystems => QueryOpV::GetAllSystems,
            QueryOperation::NotValid => QueryOpV::NotValid,
        }
    }
}

/// The read a path asks for: a leading slash is dropped, then `systems`
/// lists the registry and `system/{name}` reads one record.  A path not
/// even mentioning `system` is rejected at once.
pub open spec fn spec_queryop(s: Seq<char>) -> QueryOpV {
    if !spec_contains(s, "system"@) {
        QueryOpV::NotValid
    } else {
        let src = if s.len() > 0 && s[0] == '/' {
            s.drop_first()
        } else {
            s
        };
        let parts = spec_split(src, '/');
        if parts.len() == 1 && parts[0] == "systems"@ {
            QueryOpV::GetAllSystems
        } else if parts.len() == 2 && parts[0] == "system"@ {
            QueryOpV::GetSystem(parts[1])
        } else {
            QueryOpV::NotValid
        }
    }
}

impl QueryOperation {
    /// Parses an HTTP request path.
    pub fn from(source: &str) -> (r: QueryOperation)
        ensures
            r@ == spec_queryop(source@),
    {
        if !contains_str(source, "system") {
            return QueryOperation::NotValid;
        }
        let n = source.unicode_len();
        let src: &str = if n > 0 && source.get_char(0) == '/' {
            let stripped = source.substring_char(1, n);
            proof {
                assert(stripped@ =~= source@.drop_first());
            }
            stripped
        } else {
            source
        };
        let parts = split_str(src, '/');
        if parts.len() == 1 && str_eq(parts[0].as_str(), "systems") {
            QueryOperation::GetAllSystems
        } else if parts.len() == 2 && str_eq(parts[0].as_str(), "system") {
            let name: &String = &parts[1];
            QueryOperation::GetSystem(name.clone())
        } else {
            QueryOperation::NotValid
        }
    }
}

} // verus!
