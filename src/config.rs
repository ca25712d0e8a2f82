//! The credentials for the build server.
use vstd::prelude::*;

verus! {

/// The name of the settings file in the user's home directory.
pub const CONFIG_NAME: &'static str = ".bb.yaml";

pub struct Config {
    pub teamcity_username: String,
    pub teamcity_password: String,
}

} // verus!
