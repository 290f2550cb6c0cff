use vstd::prelude::*;

verus! {

/// The labels of the windows.
pub const MAIN: &'static str = "main";

pub const MICROSOFT_LOGIN: &'static str = "microsoft-login";

} // verus!
