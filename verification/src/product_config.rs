use vstd::prelude::*;

verus! {

/// Settings of the product service, read from the environment.
pub struct Config {
    pub port: u16,
    pub gcp_project_id: String,
}

/// The HTTP port used when none is configured.
pub fn port() -> (r: u16)
    ensures
        r == 8080,
{
    8080
}

} // verus!
