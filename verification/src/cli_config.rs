//! The CLI configuration file (`/etc/remerge.conf`): the server URL, the
//! persistent client ID and the client's role, the text the CLI writes,
//! and when a loaded file must be written back.
use vstd::prelude::*;

use crate::auth::ClientRole;
use crate::ids::uuid_text;
use crate::text::{chars_of, contains_chars, contains_seq, string_of};

verus! {

/// Default config file path.
pub const CONFIG_PATH: &'static str = "/etc/remerge.conf";

/// The server used when the file names none.
pub const DEFAULT_SERVER: &'static str = "http://localhost:7654";

/// The CLI configuration.
#[derive(Debug, Clone, PartialEq, Eq)]
pub struct CliConfig {
    /// URL of the remerge server.
    pub server: String,
    /// Persistent client identifier.
    pub client_id: u128,
    /// Role within the client-ID group.
    pub role: ClientRole,
}

impl CliConfig {
    /// The configuration of a machine without a file: the default server,
    /// the given freshly generated client ID, and the main role.
    pub fn with_client_id(client_id: u128) -> (r: Self)
        ensures
            r.server@ == DEFAULT_SERVER@,
            r.client_id == client_id,
            r.role == ClientRole::Main,
    {
        CliConfig { server: DEFAULT_SERVER.to_string(), client_id, role: ClientRole::Main }
    }

    /// The text of the configuration file.
    pub fn file_text(&self) -> (r: String)
        ensures
            r@ == config_file_text(self.server@, self.client_id, self.role),
    {
        let mut out = chars_of(
            "# remerge CLI configuration\n#\n# server    \u{2014} URL of the remerge server.\n# client_id \u{2014} identifies this machine (or group) to the server.\n# role      \u{2014} \"main\" (pushes config) or \"follower\" (reuses config).\n\nserver = \"",
        );
        crate::text::append_chars(&mut out, chars_of(self.server.as_str()).as_slice());
        crate::text::append_chars(&mut out, chars_of("\"\nclient_id = \"").as_slice());
        let id = crate::ids::uuid_hyphenated(self.client_id);
        crate::text::append_chars(&mut out, chars_of(id.as_str()).as_slice());
        crate::text::append_chars(&mut out, chars_of("\"\nrole = \"").as_slice());
        crate::text::append_chars(&mut out, chars_of(role_name(self.role)).as_slice());
        crate::text::append_chars(&mut out, chars_of("\"\n").as_slice());
        string_of(out.as_slice())
    }
}

/// The name of a role in the configuration file.
pub open spec fn role_text(role: ClientRole) -> Seq<char> {
    match role {
        ClientRole::Main => "main"@,
        ClientRole::Follower => "follower"@,
    }
}

/// The name of a role in the configuration file.
pub fn role_name(role: ClientRole) -> (r: &'static str)
    ensures
        r@ == role_text(role),
{
    match role {
        ClientRole::Main => "main",
        ClientRole::Follower => "follower",
    }
}

/// The configuration file: a commented header, then the three settings.
pub open spec fn config_file_text(server: Seq<char>, client_id: u128, role: ClientRole) -> Seq<char> {
    "# remerge CLI configuration\n#\n# server    \u{2014} URL of the remerge server.\n# client_id \u{2014} identifies this machine (or group) to the server.\n# role      \u{2014} \"main\" (pushes config) or \"follower\" (reuses config).\n\nserver = \""@
        + server + "\"\nclient_id = \""@ + uuid_text(client_id) + "\"\nrole = \""@ + role_text(
        role,
    ) + "\"\n"@
}

/// Whether a loaded file must be written back so that its client ID
/// persists: it does not mention `client_id`, or the ID is nil.
pub fn needs_rewrite(content: &str, client_id: u128) -> (r: bool)
    ensures
        r == (!contains_seq(content@, "client_id"@) || client_id == 0),
{
    !contains_chars(chars_of(content).as_slice(), chars_of("client_id").as_slice()) || client_id == 0
}

} // verus!
