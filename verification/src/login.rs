//! Data for the interactive login flow.
//!
//! Collecting the credentials from the terminal and performing the login
//! against the homeserver happen outside the crate; this module holds the
//! collected values and the naming rule for the logged-in device.

use vstd::prelude::*;

verus! {

/// Login information collected interactively from the operator.
#[derive(Debug)]
pub struct InteractiveLogin {
    /// Username.
    pub username: String,
    /// Password.
    pub password: String,
}

/// The display name given to a freshly logged-in device: a fixed prefix
/// followed by a caller-chosen suffix, such as a short random tag.
pub fn device_display_name(suffix: &str) -> (r: String)
    ensures
        r@ == "Clobber_"@ + suffix@,
{
    let mut r = String::from_str("Clobber_");
    r.append(suffix);
    r
}

} // verus!
