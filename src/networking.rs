use vstd::prelude::*;

verus! {

/// The user agent sent when the caller names none.
pub const DEFAULT_USER_AGENT: &'static str = "weathercli/1";

/// The user agent of a request: the caller's, or `DEFAULT_USER_AGENT`.
pub fn get_user_agent(custom: Option<String>) -> (r: String)
    ensures
        match custom {
            Some(u) => r == u,
            None => r@ == DEFAULT_USER_AGENT@,
        },
{
    match custom {
        Some(u) => u,
        None => String::from_str(DEFAULT_USER_AGENT),
    }
}

} // verus!
