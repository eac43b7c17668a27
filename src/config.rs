//! What a run of the export is configured with.

use vstd::prelude::*;

verus! {

/// The settings of a run: the API access token, and where to store the
/// export unless told otherwise.
pub struct Config {
    pub access_token: String,
    pub default_target_folder: Option<String>,
}

} // verus!
