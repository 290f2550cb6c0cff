use vstd::prelude::*;
use crate::routing::{parse_query, spec_parse_query};

verus! {

/// The authorization code that Microsoft's login hands back in the query
/// of its redirect: the value of the `code` parameter, where it has one.
pub fn auth_code_from_query(query: &str) -> (r: Option<String>)
    ensures
        match r {
            Some(code) => spec_parse_query(query@).contains_key("code"@)
                && spec_parse_query(query@)["code"@] == Some(code@),
            None => !(spec_parse_query(query@).contains_key("code"@) && spec_parse_query(query@)["code"@] is Some),
        },
{
    let params = parse_query(query);
    match params.get("code") {
        Some(Some(code)) => Some(code),
        _ => None,
    }
}

} // verus!
