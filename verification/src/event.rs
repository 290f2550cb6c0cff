use vstd::prelude::*;

verus! {

/// The payload of the event that reports an error to the front end.
pub struct ErrorEventPayload {
    pub name: String,
    pub description: String,
}

/// The payload that reports the error `name` with its `description`.
pub fn error_payload(name: &str, description: &str) -> (p: ErrorEventPayload)
    ensures
        p.name@ == name@,
        p.description@ == description@,
{
    ErrorEventPayload { name: name.to_owned(), description: description.to_owned() }
}

} // verus!
