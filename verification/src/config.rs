//! What the deployment configures, as plain values.

use vstd::prelude::*;

verus! {

/// The service's configuration.
pub struct Config {
    /// Display name of the repository.
    pub title: String,
    /// Canonical text of the public base URL.
    pub public_url: String,
    /// Host name of the public base URL, to which the session cookie is bound.
    pub public_domain: String,
    /// Secret that signs and verifies session tokens.
    pub jwt_secret: Vec<u8>,
    pub discord_client_id: String,
    pub discord_client_secret: String,
    /// The guild whose members may sign in.
    pub discord_guild_id: String,
    /// The role that a member needs.
    pub discord_guild_role_id: String,
    pub s3_bucket_name: String,
}

} // verus!
