use vstd::prelude::*;
use crate::error::CliError;
use crate::output::OutputFormat;
use crate::relays::RelayType;
use crate::text::owned;

verus! {

/// The global options and the command of one invocation.
#[derive(Debug)]
pub struct Cli {
    pub interactive: bool,
    pub output: OutputFormat,
    pub quiet: bool,
    pub config: Option<String>,
    pub account: Option<String>,
    pub command: Option<Commands>,
}

/// The command set: one closed sum type, dispatched by exhaustive matching.
#[derive(Debug)]
pub enum Commands {
    Account { command: AccountCommands },
    Contact { command: ContactCommands },
    Group { command: GroupCommands },
    Message { command: MessageCommands },
    Relay { command: RelayCommands },
    Batch { file: String },
    Status,
    Keys { command: KeysCommands },
}

#[derive(Debug)]
pub enum KeysCommands {
    Store { pubkey: String, privkey: String },
    Get { pubkey: String },
    List,
    Remove { pubkey: String },
}

#[derive(Debug)]
pub enum AccountCommands {
    Create { name: Option<String>, about: Option<String> },
    Login { key: String },
    List,
    Info,
    Export { private: bool },
    Update { name: Option<String>, about: Option<String> },
    Logout,
}

#[derive(Debug)]
pub enum ContactCommands {
    Add { pubkey: String, name: String },
    Remove { pubkey: String },
    List,
    Fetch,
    Show { pubkey: String },
}

#[derive(Debug)]
pub enum GroupCommands {
    /// `members` is a comma-separated list of public keys.
    Create { name: String, description: Option<String>, members: Option<String> },
    List,
    Show { group_id: String },
    Join { group_id: String },
}

#[derive(Debug)]
pub enum MessageCommands {
    Send { group_id: String, message: String, kind: u16 },
    Dm { recipient: String, message: String },
    List { group_id: String, limit: usize },
    ListDm { contact: String, limit: usize },
    GetDmGroup { contact: String },
}

#[derive(Debug)]
pub enum RelayCommands {
    List { relay_type: Option<String> },
    Add { url: String, relay_type: String },
    Remove { url: String, relay_type: String },
    Test { url: String },
}

/// What `str::to_lowercase` makes of a text.
pub uninterp spec fn lower_of(s: Seq<char>) -> Seq<char>;

/// Relies on `str::to_lowercase`: the lowercase form, a function of the text alone.
#[verifier::external_body]
fn lowercase(s: &str) -> (r: String)
    ensures
        r@ == lower_of(s@),
{
    s.to_lowercase()
}

/// The relay role that an already lowercased name denotes.
pub open spec fn role_named(lower: Seq<char>) -> Option<RelayType> {
    if lower == "nostr"@ {
        Some(RelayType::Nostr)
    } else if lower == "inbox"@ {
        Some(RelayType::Inbox)
    } else if lower == "keypackage"@ || lower == "key_package"@ {
        Some(RelayType::KeyPackage)
    } else {
        None
    }
}

/// The relay role for a lowercased name; any other name is a validation
/// error that quotes the name as it was given.
pub fn relay_type_from_lowercase(lower: &str, given: &str) -> (r: Result<RelayType, CliError>)
    ensures
        r is Ok <==> role_named(lower@) is Some,
        r matches Ok(t) ==> role_named(lower@) == Some(t),
        r matches Err(e) ==> e.is_validation(),
{
    let l = owned(lower);
    if l == owned("nostr") {
        Ok(RelayType::Nostr)
    } else if l == owned("inbox") {
        Ok(RelayType::Inbox)
    } else if l == owned("keypackage") || l == owned("key_package") {
        Ok(RelayType::KeyPackage)
    } else {
        let mut m = owned("Invalid relay type: ");
        m.append(given);
        m.append(". Use 'nostr', 'inbox', or 'keypackage'");
        Err(CliError::Validation(m))
    }
}

/// Parses a relay role name case-insensitively.
pub fn parse_relay_type(relay_type: &str) -> (r: Result<RelayType, CliError>)
    ensures
        r is Ok <==> role_named(lower_of(relay_type@)) is Some,
        r matches Ok(t) ==> role_named(lower_of(relay_type@)) == Some(t),
        r matches Err(e) ==> e.is_validation(),
{
    let lower = lowercase(relay_type);
    relay_type_from_lowercase(lower.as_str(), relay_type)
}

} // verus!
