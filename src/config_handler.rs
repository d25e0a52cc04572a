use vstd::prelude::*;

verus! {

/// Where the client connects and who it is.
pub struct Config {
    pub host_ip: String,
    pub user_id: String,
}

/// Whether a saved configuration is available; none is kept yet.
pub fn config_path_exists() -> (r: bool)
    ensures
        !r,
{
    false
}

} // verus!
