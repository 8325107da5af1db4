use vstd::prelude::*;
use crate::codec::is_hex_char;
use crate::error::CliError;
use crate::relays::RelayType;
use crate::text::{owned, trim_text, trimmed_of};

verus! {

/// An account as the engine hands it over: its public key (hexadecimal) and
/// its three relay lists.
#[derive(Debug)]
pub struct AccountHandle {
    pub pubkey: String,
    pub nip65_relays: Vec<String>,
    pub inbox_relays: Vec<String>,
    pub key_package_relays: Vec<String>,
}

impl AccountHandle {
    pub open spec fn has_empty_relays(&self) -> bool {
        self.nip65_relays@.len() == 0 || self.inbox_relays@.len() == 0
            || self.key_package_relays@.len() == 0
    }

    /// The engine's list for a role on this account.
    pub fn relays_for(&self, relay_type: RelayType) -> (r: &Vec<String>)
        ensures
            r@ == match relay_type {
                RelayType::Nostr => self.nip65_relays@,
                RelayType::Inbox => self.inbox_relays@,
                RelayType::KeyPackage => self.key_package_relays@,
            },
    {
        match relay_type {
            RelayType::Nostr => &self.nip65_relays,
            RelayType::Inbox => &self.inbox_relays,
            RelayType::KeyPackage => &self.key_package_relays,
        }
    }

    /// Whether the one-time relay repair is due: a relay list of the record is empty.
    pub fn needs_relay_repair(&self) -> (r: bool)
        ensures
            r == self.has_empty_relays(),
    {
        self.nip65_relays.len() == 0 || self.inbox_relays.len() == 0
            || self.key_package_relays.len() == 0
    }
}

/// Holds the single active account, if any.
pub struct AccountManager {
    current_account: Option<AccountHandle>,
}

impl AccountManager {
    pub closed spec fn current(&self) -> Option<AccountHandle> {
        self.current_account
    }

    /// A session with no active account.
    pub fn new() -> (r: Self)
        ensures
            r.current() is None,
    {
        AccountManager { current_account: None }
    }

    pub fn get_current_account(&self) -> (r: Option<&AccountHandle>)
        ensures
            r matches Some(a) ==> self.current() == Some(*a),
            r is None <==> self.current() is None,
    {
        self.current_account.as_ref()
    }

    pub fn is_logged_in(&self) -> (r: bool)
        ensures
            r == self.current() is Some,
    {
        self.current_account.is_some()
    }

    /// Makes `account` the active one; the previous one is dropped.
    pub fn set_current_account(&mut self, account: AccountHandle)
        ensures
            final(self).current() == Some(account),
    {
        self.current_account = Some(account);
    }

    /// The active account, or a state error when there is none.
    pub fn require_account(&self) -> (r: Result<&AccountHandle, CliError>)
        ensures
            r matches Ok(a) ==> self.current() == Some(*a),
            r is Err <==> self.current() is None,
            r matches Err(e) ==> e is State,
    {
        match &self.current_account {
            Some(a) => Ok(a),
            None => Err(CliError::State(owned("No account logged in"))),
        }
    }

    /// Ends the session: the active account, if any, is handed back (so
    /// that the engine can be told and the persisted pointer cleared) and
    /// none is active afterwards. Without an active account nothing happens.
    pub fn logout(&mut self) -> (r: Option<AccountHandle>)
        ensures
            r == old(self).current(),
            final(self).current() is None,
    {
        self.current_account.take()
    }
}

/// Where local state is kept: the contacts list and the active-account pointer.
pub struct Storage {
    data_dir: String,
}

impl Storage {
    pub closed spec fn dir(&self) -> Seq<char> {
        self.data_dir@
    }

    pub fn new(data_dir: String) -> (r: Self)
        ensures
            r.dir() == data_dir@,
    {
        Storage { data_dir }
    }

    fn file(&self, name: &str) -> (r: String)
        ensures
            r@ == self.dir() + "/"@ + name@,
    {
        let mut p = self.data_dir.clone();
        p.append("/");
        p.append(name);
        p
    }

    /// The file that holds the contacts list.
    pub fn contacts_path(&self) -> (r: String)
        ensures
            r@ == self.dir() + "/"@ + "contacts.json"@,
    {
        self.file("contacts.json")
    }

    /// The file that holds the active-account pointer.
    pub fn current_account_path(&self) -> (r: String)
        ensures
            r@ == self.dir() + "/"@ + "current_account_pubkey.txt"@,
    {
        self.file("current_account_pubkey.txt")
    }

    /// The text written to the pointer file for the active account: its
    /// public key, as it is.
    pub fn save_current_account_pubkey(&self, pubkey: &str) -> (r: String)
        ensures
            r@ == pubkey@,
    {
        owned(pubkey)
    }

    /// The active-account pointer, from the pointer file's text (`None`
    /// when the file is absent, as after clearing). Surrounding whitespace
    /// is dropped, so a public key in hexadecimal written by
    /// `save_current_account_pubkey` reads back unchanged.
    pub fn load_current_account_pubkey(&self, content: Option<String>) -> (r: Option<String>)
        ensures
            content is None ==> r is None,
            content matches Some(c) ==> (r matches Some(p) && p@ == trimmed_of(c@)),
            content matches Some(c) ==> ((forall|i: int| 0 <= i < c@.len() ==> is_hex_char(#[trigger] c@[i])) ==> (r matches Some(p) && p@ == c@)),
    {
        match content {
            Some(c) => Some(trim_text(c.as_str())),
            None => None,
        }
    }
}

} // verus!
