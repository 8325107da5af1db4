use vstd::prelude::*;
use crate::codec::{decode_hex, is_hex_text};
use crate::error::CliError;
use crate::output::Timestamp;
use crate::relays::{parses_as_url, url_parses};
use crate::text::{has_prefix, owned};

verus! {

/// How a public key is written.
#[derive(Debug, Clone, Copy, PartialEq, Eq, Structural)]
pub enum PubkeyForm {
    /// Bech32 text starting with `npub`, decoded by the engine.
    Bech32,
    /// Sixty-four hexadecimal digits.
    Hex,
}

/// Whether a text is a public key in hexadecimal: 64 hexadecimal digits.
pub open spec fn is_pubkey_hex(s: Seq<char>) -> bool {
    s.len() == 64 && is_hex_text(s)
}

/// Checks the shape of a public key given by a user: `npub` text is left to
/// the engine's decoder, anything else must be 64 hexadecimal digits.
pub fn classify_pubkey(public_key: &str) -> (r: Result<PubkeyForm, CliError>)
    ensures
        "npub"@.is_prefix_of(public_key@) ==> r == Ok::<PubkeyForm, CliError>(PubkeyForm::Bech32),
        !"npub"@.is_prefix_of(public_key@) ==> (r is Ok <==> is_pubkey_hex(public_key@)),
        !"npub"@.is_prefix_of(public_key@) && r is Ok ==> r == Ok::<PubkeyForm, CliError>(PubkeyForm::Hex),
        r matches Err(e) ==> e.is_validation(),
{
    if has_prefix(public_key, "npub") {
        return Ok(PubkeyForm::Bech32);
    }
    match decode_hex(public_key) {
        Ok(bytes) => {
            if bytes.len() == 32 {
                Ok(PubkeyForm::Hex)
            } else {
                Err(CliError::Validation(owned("Invalid hex format: wrong length")))
            }
        },
        Err(_) => Err(CliError::Validation(owned("Invalid hex format"))),
    }
}

/// Profile metadata cached for a contact.
#[derive(Debug, Clone)]
pub struct ContactMetadata {
    pub display_name: Option<String>,
    pub about: Option<String>,
    pub picture: Option<String>,
    pub banner: Option<String>,
    pub nip05: Option<String>,
    pub lud16: Option<String>,
}

/// An optional URL field kept only when it parses as a URL.
pub open spec fn url_kept(field: Option<String>) -> Option<String> {
    match field {
        Some(u) => if parses_as_url(u@) {
            Some(u)
        } else {
            None
        },
        None => None,
    }
}

fn keep_url(field: &Option<String>) -> (r: Option<String>)
    ensures
        r == url_kept(*field),
{
    match field {
        Some(u) => if url_parses(u.as_str()) {
            Some(u.clone())
        } else {
            None
        },
        None => None,
    }
}

impl ContactMetadata {
    /// The metadata as it may be published: picture and banner are dropped
    /// unless they parse as URLs; the other fields are kept.
    pub fn sanitized(&self) -> (r: ContactMetadata)
        ensures
            r.display_name == self.display_name,
            r.about == self.about,
            r.picture == url_kept(self.picture),
            r.banner == url_kept(self.banner),
            r.nip05 == self.nip05,
            r.lud16 == self.lud16,
    {
        ContactMetadata {
            display_name: self.display_name.clone(),
            about: self.about.clone(),
            picture: keep_url(&self.picture),
            banner: keep_url(&self.banner),
            nip05: self.nip05.clone(),
            lud16: self.lud16.clone(),
        }
    }
}

/// A contact: a name, a public key in hexadecimal, optional cached metadata
/// and the time it was added.
#[derive(Debug, Clone)]
pub struct Contact {
    pub name: String,
    pub public_key: String,
    pub metadata: Option<ContactMetadata>,
    pub added_at: Timestamp,
}

/// The name a fetched contact gets: its display name, or else the first
/// sixteen digits of its public key.
pub open spec fn fetched_name(public_key: Seq<char>, metadata: Option<ContactMetadata>) -> Seq<char> {
    match metadata {
        Some(m) => match m.display_name {
            Some(n) => n@,
            None => public_key.subrange(0, 16),
        },
        None => public_key.subrange(0, 16),
    }
}

impl Contact {
    /// A contact learned from the network.
    pub fn from_fetched(public_key: String, metadata: Option<ContactMetadata>, added_at: Timestamp) -> (r: Contact)
        requires
            public_key@.len() >= 16,
        ensures
            r.name@ == fetched_name(public_key@, metadata),
            r.public_key == public_key,
            r.metadata == metadata,
            r.added_at == added_at,
    {
        let name = match &metadata {
            Some(m) => match &m.display_name {
                Some(n) => n.clone(),
                None => owned(public_key.as_str().substring_char(0, 16)),
            },
            None => owned(public_key.as_str().substring_char(0, 16)),
        };
        Contact { name, public_key, metadata, added_at }
    }
}

/// The contacts list, at most one contact per public key, in the order in
/// which keys were first added.
pub struct ContactManager {
    contacts: Vec<Contact>,
}

/// The position of the contact with `key`, if any.
pub open spec fn index_of(contacts: Seq<Contact>, key: Seq<char>) -> Option<int> {
    if exists|i: int| 0 <= i < contacts.len() && contacts[i].public_key@ == key {
        Some(choose|i: int| 0 <= i < contacts.len() && contacts[i].public_key@ == key)
    } else {
        None
    }
}

pub open spec fn keys_unique(contacts: Seq<Contact>) -> bool {
    forall|i: int, j: int|
        0 <= i < contacts.len() && 0 <= j < contacts.len() && i != j ==> #[trigger] contacts[i].public_key@ != #[trigger] contacts[j].public_key@
}

/// What adding `c` makes of a list: the contact with its key is replaced,
/// or `c` is appended.
pub open spec fn added(contacts: Seq<Contact>, c: Contact) -> Seq<Contact> {
    match index_of(contacts, c.public_key@) {
        Some(i) => contacts.update(i, c),
        None => contacts.push(c),
    }
}

/// What adding each of `more` in turn makes of a list.
pub open spec fn added_all(contacts: Seq<Contact>, more: Seq<Contact>) -> Seq<Contact>
    decreases more.len(),
{
    if more.len() == 0 {
        contacts
    } else {
        added(added_all(contacts, more.drop_last()), more.last())
    }
}

impl ContactManager {
    pub closed spec fn contacts(&self) -> Seq<Contact> {
        self.contacts@
    }

    pub open spec fn wf(&self) -> bool {
        keys_unique(self.contacts())
    }

    pub fn new() -> (r: Self)
        ensures
            r.wf(),
            r.contacts() == Seq::<Contact>::empty(),
    {
        ContactManager { contacts: Vec::new() }
    }

    fn position(&self, public_key: &String) -> (r: Option<usize>)
        requires
            self.wf(),
        ensures
            r matches Some(i) ==> i < self.contacts().len() && self.contacts()[i as int].public_key@ == public_key@,
            r is None ==> forall|j: int| 0 <= j < self.contacts().len() ==> self.contacts()[j].public_key@ != public_key@,
            r matches Some(i) ==> index_of(self.contacts(), public_key@) == Some(i as int),
            r is None ==> index_of(self.contacts(), public_key@) is None,
    {
        let mut i: usize = 0;
        while i < self.contacts.len()
            invariant
                self.wf(),
                i <= self.contacts@.len(),
                forall|j: int| 0 <= j < i ==> self.contacts@[j].public_key@ != public_key@,
            decreases self.contacts@.len() - i,
        {
            if self.contacts[i].public_key == *public_key {
                proof {
                    assert(self.contacts@[i as int].public_key@ == public_key@);
                    let c = choose|c: int| 0 <= c < self.contacts@.len() && self.contacts@[c].public_key@ == public_key@;
                    assert(c == i);
                }
                return Some(i);
            }
            i = i + 1;
        }
        None
    }

    /// Adds a contact, replacing the one with the same public key.
    pub fn add(&mut self, contact: Contact)
        requires
            old(self).wf(),
        ensures
            final(self).wf(),
            final(self).contacts() == added(old(self).contacts(), contact),
    {
        let ghost before = self.contacts@;
        match self.position(&contact.public_key) {
            Some(i) => {
                self.contacts.set(i, contact);
                assert forall|a: int, b: int|
                    0 <= a < self.contacts@.len() && 0 <= b < self.contacts@.len() && a != b
                    implies #[trigger] self.contacts@[a].public_key@ != #[trigger] self.contacts@[b].public_key@ by {
                    assert(before[a].public_key@ == self.contacts@[a].public_key@);
                    assert(before[b].public_key@ == self.contacts@[b].public_key@);
                }
            },
            None => {
                self.contacts.push(contact);
                assert forall|a: int, b: int|
                    0 <= a < self.contacts@.len() && 0 <= b < self.contacts@.len() && a != b
                    implies #[trigger] self.contacts@[a].public_key@ != #[trigger] self.contacts@[b].public_key@ by {
                    if a < before.len() {
                        assert(before[a] == self.contacts@[a]);
                    }
                    if b < before.len() {
                        assert(before[b] == self.contacts@[b]);
                    }
                }
            },
        }
    }

    /// Removes the contact with `public_key`, if there is one.
    pub fn remove(&mut self, public_key: &str)
        requires
            old(self).wf(),
        ensures
            final(self).wf(),
            index_of(old(self).contacts(), public_key@) matches Some(i) ==> final(self).contacts() == old(self).contacts().remove(i),
            index_of(old(self).contacts(), public_key@) is None ==> final(self).contacts() == old(self).contacts(),
    {
        let key = owned(public_key);
        let ghost before = self.contacts@;
        match self.position(&key) {
            Some(i) => {
                self.contacts.remove(i);
                assert forall|a: int, b: int|
                    0 <= a < self.contacts@.len() && 0 <= b < self.contacts@.len() && a != b
                    implies #[trigger] self.contacts@[a].public_key@ != #[trigger] self.contacts@[b].public_key@ by {
                    let a2 = if a < i { a } else { a + 1 };
                    let b2 = if b < i { b } else { b + 1 };
                    assert(self.contacts@[a] == before[a2]);
                    assert(self.contacts@[b] == before[b2]);
                }
            },
            None => {},
        }
    }

    /// The contact with `public_key`, if any.
    pub fn get(&self, public_key: &str) -> (r: Option<&Contact>)
        requires
            self.wf(),
        ensures
            index_of(self.contacts(), public_key@) matches Some(i) ==> r == Some(&self.contacts()[i]),
            index_of(self.contacts(), public_key@) is None ==> r is None,
    {
        let key = owned(public_key);
        match self.position(&key) {
            Some(i) => Some(&self.contacts[i]),
            None => None,
        }
    }

    /// All contacts.
    pub fn list(&self) -> (r: &[Contact])
        ensures
            r@ == self.contacts(),
    {
        self.contacts.as_slice()
    }

    pub fn is_empty(&self) -> (r: bool)
        ensures
            r == (self.contacts().len() == 0),
    {
        self.contacts.len() == 0
    }

    /// Replaces the whole list with contacts learned from the network, added
    /// in order; of two with one public key the later wins.
    pub fn replace_all(&mut self, fetched: Vec<Contact>)
        requires
            old(self).wf(),
        ensures
            final(self).wf(),
            final(self).contacts() == added_all(Seq::empty(), fetched@),
    {
        self.contacts = Vec::new();
        let mut rest = fetched;
        let ghost all = rest@;
        let total = rest.len();
        let mut i: usize = 0;
        assert(all.subrange(0, 0) =~= Seq::<Contact>::empty());
        while rest.len() > 0
            invariant
                self.wf(),
                i + rest@.len() == all.len(),
                all.len() == total,
                rest@ == all.subrange(i as int, all.len() as int),
                self.contacts() == added_all(Seq::empty(), all.subrange(0, i as int)),
            decreases rest@.len(),
        {
            let c = rest.remove(0);
            assert(c == all[i as int]);
            assert(all.subrange(0, i as int + 1).drop_last() =~= all.subrange(0, i as int));
            self.add(c);
            i = i + 1;
            assert(rest@ =~= all.subrange(i as int, all.len() as int));
        }
        assert(all.subrange(0, all.len() as int) =~= all);
    }
}

} // verus!
